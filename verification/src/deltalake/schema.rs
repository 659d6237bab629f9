//! The schema of a table, and the types of its columns.
use vstd::prelude::*;
use vstd::string::*;
use crate::system_tables::coprocessor::columns::{mysql_type_to_string, sql_type_name};
use crate::text::{
    before, contains, decimal, decimal_reads_back, has_part, has_prefix, is_before, is_digit,
    lower_case_stays, lowercase, occurs_at, order_is_total, order_is_transitive, parts_are_found,
    parts_have_parts, parts_share_characters, same, signed_decimal, to_lowercase,
};

verus! {

/// The type of a column in memory.
#[derive(Debug, Clone, Copy, PartialEq, Eq, Structural)]
pub enum ArrowType {
    Boolean,
    Int8,
    Int16,
    Int32,
    Int64,
    UInt32,
    UInt64,
    Float32,
    Float64,
    Utf8,
    LargeUtf8,
    Binary,
    LargeBinary,
    /// Points in time in microseconds, without a time zone
    TimestampMicrosecond,
    /// Points in time of any other kind, named as if they were in nanoseconds
    TimestampOther,
    Date32,
    Date64,
    /// Times of day in microseconds
    Time64Microsecond,
    /// Any other type, named as if it had no values
    Other,
}

/// The type of a column in a Delta Lake table.
#[derive(Debug, Clone, Copy, PartialEq, Eq, Structural)]
pub enum DeltaType {
    Boolean,
    Byte,
    Short,
    Integer,
    Long,
    Float,
    Double,
    Text,
    Binary,
    Timestamp,
    Date,
}

/// A column of a table.
#[derive(Debug, PartialEq)]
pub struct Field {
    pub name: String,
    pub data_type: ArrowType,
    pub nullable: bool,
}

/// A column of a Delta Lake table.
#[derive(Debug, PartialEq)]
pub struct StructField {
    pub name: String,
    pub data_type: DeltaType,
    pub nullable: bool,
}

impl Clone for Field {
    fn clone(&self) -> (r: Self)
        ensures
            r == *self,
    {
        Field { name: self.name.clone(), data_type: self.data_type, nullable: self.nullable }
    }
}

/// The Delta Lake type for a type in memory. Delta Lake has no unsigned types, and
/// a type that it does not know is kept as text.
pub open spec fn delta_type(arrow_type: ArrowType) -> DeltaType {
    match arrow_type {
        ArrowType::Boolean => DeltaType::Boolean,
        ArrowType::Int8 => DeltaType::Byte,
        ArrowType::Int16 => DeltaType::Short,
        ArrowType::Int32 | ArrowType::UInt32 => DeltaType::Integer,
        ArrowType::Int64 | ArrowType::UInt64 => DeltaType::Long,
        ArrowType::Float32 => DeltaType::Float,
        ArrowType::Float64 => DeltaType::Double,
        ArrowType::Utf8 | ArrowType::LargeUtf8 => DeltaType::Text,
        ArrowType::Binary | ArrowType::LargeBinary => DeltaType::Binary,
        ArrowType::TimestampMicrosecond | ArrowType::TimestampOther => DeltaType::Timestamp,
        ArrowType::Date32 | ArrowType::Date64 => DeltaType::Date,
        ArrowType::Time64Microsecond | ArrowType::Other => DeltaType::Text,
    }
}

/// The name of a type, as it is written in messages.
pub open spec fn name_of_type(arrow_type: ArrowType) -> Seq<char> {
    match arrow_type {
        ArrowType::Boolean => "Boolean"@,
        ArrowType::Int8 => "Int8"@,
        ArrowType::Int16 => "Int16"@,
        ArrowType::Int32 => "Int32"@,
        ArrowType::Int64 => "Int64"@,
        ArrowType::UInt32 => "UInt32"@,
        ArrowType::UInt64 => "UInt64"@,
        ArrowType::Float32 => "Float32"@,
        ArrowType::Float64 => "Float64"@,
        ArrowType::Utf8 => "Utf8"@,
        ArrowType::LargeUtf8 => "LargeUtf8"@,
        ArrowType::Binary => "Binary"@,
        ArrowType::LargeBinary => "LargeBinary"@,
        ArrowType::TimestampMicrosecond => "Timestamp(Microsecond, None)"@,
        ArrowType::TimestampOther => "Timestamp(Nanosecond, None)"@,
        ArrowType::Date32 => "Date32"@,
        ArrowType::Date64 => "Date64"@,
        ArrowType::Time64Microsecond => "Time64(Microsecond)"@,
        ArrowType::Other => "Null"@,
    }
}

/// The name of a type, as it is written in messages.
pub fn type_text(arrow_type: &ArrowType) -> (r: &'static str)
    ensures
        r@ == name_of_type(*arrow_type),
{
    match arrow_type {
        ArrowType::Boolean => "Boolean",
        ArrowType::Int8 => "Int8",
        ArrowType::Int16 => "Int16",
        ArrowType::Int32 => "Int32",
        ArrowType::Int64 => "Int64",
        ArrowType::UInt32 => "UInt32",
        ArrowType::UInt64 => "UInt64",
        ArrowType::Float32 => "Float32",
        ArrowType::Float64 => "Float64",
        ArrowType::Utf8 => "Utf8",
        ArrowType::LargeUtf8 => "LargeUtf8",
        ArrowType::Binary => "Binary",
        ArrowType::LargeBinary => "LargeBinary",
        ArrowType::TimestampMicrosecond => "Timestamp(Microsecond, None)",
        ArrowType::TimestampOther => "Timestamp(Nanosecond, None)",
        ArrowType::Date32 => "Date32",
        ArrowType::Date64 => "Date64",
        ArrowType::Time64Microsecond => "Time64(Microsecond)",
        ArrowType::Other => "Null",
    }
}

/// Convert Arrow DataType to Delta DataType.
pub fn arrow_type_to_delta_type(arrow_type: &ArrowType) -> (r: DeltaType)
    ensures
        r == delta_type(*arrow_type),
{
    match arrow_type {
        ArrowType::Boolean => DeltaType::Boolean,
        ArrowType::Int8 => DeltaType::Byte,
        ArrowType::Int16 => DeltaType::Short,
        ArrowType::Int32 => DeltaType::Integer,
        ArrowType::Int64 => DeltaType::Long,
        ArrowType::UInt32 => DeltaType::Integer,
        ArrowType::UInt64 => DeltaType::Long,
        ArrowType::Float32 => DeltaType::Float,
        ArrowType::Float64 => DeltaType::Double,
        ArrowType::Utf8 => DeltaType::Text,
        ArrowType::LargeUtf8 => DeltaType::Text,
        ArrowType::Binary => DeltaType::Binary,
        ArrowType::LargeBinary => DeltaType::Binary,
        ArrowType::TimestampMicrosecond => DeltaType::Timestamp,
        ArrowType::TimestampOther => DeltaType::Timestamp,
        ArrowType::Date32 => DeltaType::Date,
        ArrowType::Date64 => DeltaType::Date,
        _ => DeltaType::Text,
    }
}

/// Convert Arrow Field to Delta StructField.
pub fn arrow_field_to_delta_field(field: &Field) -> (r: StructField)
    ensures
        r.name@ == field.name@,
        r.data_type == delta_type(field.data_type),
        r.nullable == field.nullable,
{
    StructField {
        name: field.name.clone(),
        data_type: arrow_type_to_delta_type(&field.data_type),
        nullable: field.nullable,
    }
}

/// The type of a column whose SQL type is, in lower case, `sql_type`. Points in
/// time are kept as text, and decimal numbers as doubles.
pub open spec fn type_for(sql_type: Seq<char>) -> ArrowType {
    if has_part(sql_type, "tinyint(1)"@) {
        ArrowType::Boolean
    } else if has_part(sql_type, "bigint"@) {
        if has_part(sql_type, "unsigned"@) {
            ArrowType::UInt64
        } else {
            ArrowType::Int64
        }
    } else if has_part(sql_type, "tinyint"@) {
        ArrowType::Int8
    } else if has_part(sql_type, "smallint"@) {
        ArrowType::Int16
    } else if has_part(sql_type, "mediumint"@) || has_part(sql_type, "int"@) {
        if has_part(sql_type, "unsigned"@) {
            ArrowType::UInt32
        } else {
            ArrowType::Int32
        }
    } else if has_part(sql_type, "float"@) {
        ArrowType::Float32
    } else if has_part(sql_type, "double"@) || has_part(sql_type, "real"@) || has_part(
        sql_type,
        "decimal"@,
    ) || has_part(sql_type, "numeric"@) {
        ArrowType::Float64
    } else if has_part(sql_type, "timestamp"@) || has_part(sql_type, "datetime"@) {
        ArrowType::Utf8
    } else if has_part(sql_type, "date"@) {
        ArrowType::Date32
    } else if has_part(sql_type, "time"@) {
        ArrowType::Time64Microsecond
    } else {
        ArrowType::Utf8
    }
}

/// Convert MySQL type to Arrow DataType.
pub fn mysql_type_to_arrow_type(mysql_type: &str) -> (r: ArrowType)
    ensures
        r == type_for(lowercase(mysql_type@)),
{
    let lower = to_lowercase(mysql_type);
    let t = lower.as_str();
    if contains(t, "tinyint(1)") {
        ArrowType::Boolean
    } else if contains(t, "bigint") {
        if contains(t, "unsigned") {
            ArrowType::UInt64
        } else {
            ArrowType::Int64
        }
    } else if contains(t, "tinyint") {
        ArrowType::Int8
    } else if contains(t, "smallint") {
        ArrowType::Int16
    } else if contains(t, "mediumint") || contains(t, "int") {
        if contains(t, "unsigned") {
            ArrowType::UInt32
        } else {
            ArrowType::Int32
        }
    } else if contains(t, "float") {
        ArrowType::Float32
    } else if contains(t, "double") || contains(t, "real") {
        ArrowType::Float64
    } else if contains(t, "decimal") || contains(t, "numeric") {
        ArrowType::Float64
    } else if contains(t, "timestamp") {
        ArrowType::Utf8
    } else if contains(t, "datetime") {
        ArrowType::Utf8
    } else if contains(t, "date") {
        ArrowType::Date32
    } else if contains(t, "time") {
        ArrowType::Time64Microsecond
    } else {
        ArrowType::Utf8
    }
}

/// Whether there is a field with the name.
pub open spec fn has_field(fields: Seq<Field>, name: Seq<char>) -> bool {
    exists|i: int| 0 <= i < fields.len() && (#[trigger] fields[i]).name@ == name
}

/// Where the field with the name stands.
pub open spec fn field_place(fields: Seq<Field>, name: Seq<char>) -> int {
    choose|i: int| 0 <= i < fields.len() && (#[trigger] fields[i]).name@ == name
}

/// The types of fields by name.
pub open spec fn field_types(fields: Seq<Field>) -> Map<Seq<char>, ArrowType> {
    Map::new(
        |name: Seq<char>| has_field(fields, name),
        |name: Seq<char>| fields[field_place(fields, name)].data_type,
    )
}

/// Whether the fields stand in the order of their names, each name once.
pub open spec fn in_order(fields: Seq<Field>) -> bool {
    forall|i: int, j: int|
        0 <= i < j < fields.len() ==> before(
            (#[trigger] fields[i]).name@,
            (#[trigger] fields[j]).name@,
        )
}

/// Whether every field may be null.
pub open spec fn all_nullable(fields: Seq<Field>) -> bool {
    forall|i: int| 0 <= i < fields.len() ==> (#[trigger] fields[i]).nullable
}

/// `types` with one more, unless there is one of that name.
pub open spec fn with_type(
    types: Map<Seq<char>, ArrowType>,
    name: Seq<char>,
    data_type: ArrowType,
) -> Map<Seq<char>, ArrowType> {
    if types.dom().contains(name) {
        types
    } else {
        types.insert(name, data_type)
    }
}

/// Adds a field that may be null in its place, unless there is one of that name.
pub fn add_field(fields: &mut Vec<Field>, name: &str, data_type: ArrowType)
    requires
        in_order(old(fields)@),
        all_nullable(old(fields)@),
    ensures
        in_order(final(fields)@),
        all_nullable(final(fields)@),
        field_types(final(fields)@) == with_type(field_types(old(fields)@), name@, data_type),
{
    let mut i: usize = 0;
    while i < fields.len() && is_before(fields[i].name.as_str(), name)
        invariant
            fields == old(fields),
            i <= fields@.len(),
            in_order(fields@),
            forall|k: int| 0 <= k < i ==> before((#[trigger] fields@[k]).name@, name@),
        decreases fields@.len() - i,
    {
        i += 1;
    }
    let ghost had = fields@;
    proof {
        assert forall|k: int| 0 <= k < i implies (#[trigger] had[k]).name@ != name@ by {
            order_is_total(had[k].name@, name@);
        }
        if i < had.len() {
            order_is_total(had[i as int].name@, name@);
        }
    }
    if i < fields.len() && same(fields[i].name.as_str(), name) {
        assert(has_field(had, name@));
        return;
    }
    proof {
        assert forall|k: int| i <= k < had.len() implies before(
            name@,
            (#[trigger] had[k]).name@,
        ) by {
            if k > i {
                order_is_transitive(name@, had[i as int].name@, had[k].name@);
            }
        }
        assert forall|k: int| i <= k < had.len() implies (#[trigger] had[k]).name@ != name@ by {
            order_is_total(had[k].name@, name@);
        }
    }
    let field = Field { name: name.to_string(), data_type, nullable: true };
    let ghost added = field;
    fields.insert(i, field);
    proof {
        let now = fields@;
        assert forall|a: int, b: int| 0 <= a < b < now.len() implies before(
            (#[trigger] now[a]).name@,
            (#[trigger] now[b]).name@,
        ) by {
            let x = if a < i { a } else { a - 1 };
            let y = if b < i { b } else { b - 1 };
            if a != i {
                assert(now[a] == had[x]);
            }
            if b != i {
                assert(now[b] == had[y]);
            }
        }
        lemma_inserted_types(had, i as int, added);
    }
}

proof fn lemma_inserted_types(had: Seq<Field>, i: int, field: Field)
    requires
        0 <= i <= had.len(),
        in_order(had.insert(i, field)),
        !has_field(had, field.name@),
    ensures
        field_types(had.insert(i, field)) == field_types(had).insert(field.name@, field.data_type),
{
    let now = had.insert(i, field);
    assert(now[i] == field);
    assert forall|name: Seq<char>| has_field(now, name) == (has_field(had, name) || name
        == field.name@) by {
        if has_field(had, name) {
            let k = field_place(had, name);
            if k < i {
                assert(now[k] == had[k]);
            } else {
                assert(now[k + 1] == had[k]);
            }
        }
        if has_field(now, name) && name != field.name@ {
            let k = field_place(now, name);
            if k < i {
                assert(now[k] == had[k]);
            } else {
                assert(now[k] == had[k - 1]);
            }
        }
    }
    assert forall|name: Seq<char>| has_field(now, name) implies field_types(now)[name]
        == field_types(had).insert(field.name@, field.data_type)[name] by {
        let k = field_place(now, name);
        if name == field.name@ {
            lemma_one_place(now, k, i);
        } else {
            let at = field_place(had, name);
            let moved = if at < i { at } else { at + 1 };
            assert(now[moved] == had[at]);
            lemma_one_place(now, k, moved);
        }
    }
    assert(field_types(now) =~= field_types(had).insert(field.name@, field.data_type));
}

/// A name stands at one place.
pub proof fn lemma_one_place(fields: Seq<Field>, a: int, b: int)
    requires
        in_order(fields),
        0 <= a < fields.len(),
        0 <= b < fields.len(),
        fields[a].name@ == fields[b].name@,
    ensures
        a == b,
{
    order_is_total(fields[a].name@, fields[b].name@);
}

/// A copy of a list of fields.
pub fn copy_fields(fields: &Vec<Field>) -> (r: Vec<Field>)
    ensures
        r@ == fields@,
{
    let mut out: Vec<Field> = Vec::new();
    let mut i: usize = 0;
    while i < fields.len()
        invariant
            i <= fields@.len(),
            out@ == fields@.take(i as int),
        decreases fields@.len() - i,
    {
        out.push(fields[i].clone());
        i += 1;
        assert(out@ =~= fields@.take(i as int));
    }
    assert(fields@.take(i as int) =~= fields@);
    out
}

/// The names of the fields that every table has.
pub open spec fn system_names() -> Seq<Seq<char>> {
    seq![
        "_vector_table"@,
        "_vector_source_table"@,
        "_vector_source_schema"@,
        "_vector_instance"@,
        "_vector_timestamp"@,
        "date"@,
    ]
}

/// Whether a name is that of a field for the data of a table: neither a field that
/// every table has, nor one that describes the table.
pub open spec fn is_data_name(name: Seq<char>) -> bool {
    !system_names().contains(name) && !has_prefix(name, "_schema_metadata"@)
}

/// Whether `fields` begins with the fields that every table has: texts that are
/// never null.
pub open spec fn has_system_fields(fields: Seq<Field>) -> bool {
    &&& fields.len() >= 6
    &&& forall|i: int|
        0 <= i < 6 ==> (#[trigger] fields[i]).name@ == system_names()[i] && fields[i].data_type
            == ArrowType::Utf8 && !fields[i].nullable
}

/// The fields that every table has.
pub fn system_fields() -> (r: Vec<Field>)
    ensures
        r@.len() == 6,
        has_system_fields(r@),
{
    let mut fields: Vec<Field> = Vec::new();
    fields.push(
        Field { name: "_vector_table".to_string(), data_type: ArrowType::Utf8, nullable: false },
    );
    fields.push(
        Field {
            name: "_vector_source_table".to_string(),
            data_type: ArrowType::Utf8,
            nullable: false,
        },
    );
    fields.push(
        Field {
            name: "_vector_source_schema".to_string(),
            data_type: ArrowType::Utf8,
            nullable: false,
        },
    );
    fields.push(
        Field { name: "_vector_instance".to_string(), data_type: ArrowType::Utf8, nullable: false },
    );
    fields.push(
        Field { name: "_vector_timestamp".to_string(), data_type: ArrowType::Utf8, nullable: false },
    );
    fields.push(Field { name: "date".to_string(), data_type: ArrowType::Utf8, nullable: false });
    fields
}

/// A text that lacks a character has no part with that character.
proof fn lemma_lacks(whole: Seq<char>, part: Seq<char>, i: int)
    requires
        0 <= i < part.len(),
        forall|j: int| 0 <= j < whole.len() ==> #[trigger] whole[j] != part[i],
    ensures
        !has_part(whole, part),
{
    if has_part(whole, part) {
        parts_share_characters(whole, part, i);
    }
}

proof fn lemma_has_itself(text: Seq<char>)
    ensures
        has_part(text, text),
{
    parts_are_found(Seq::empty(), text, Seq::empty());
    assert(Seq::<char>::empty() + text + Seq::<char>::empty() =~= text);
}

/// The names that hold shorter names.
proof fn lemma_longer_names(sql_type: Seq<char>)
    ensures
        has_part(sql_type, "tinyint(1)"@) ==> has_part(sql_type, "tinyint"@),
        has_part(sql_type, "bigint"@) ==> has_part(sql_type, "int"@),
        has_part(sql_type, "tinyint"@) ==> has_part(sql_type, "int"@),
        has_part(sql_type, "smallint"@) ==> has_part(sql_type, "int"@),
        has_part(sql_type, "mediumint"@) ==> has_part(sql_type, "int"@),
        has_part(sql_type, "timestamp"@) ==> has_part(sql_type, "time"@),
        has_part(sql_type, "datetime"@) ==> has_part(sql_type, "time"@) && has_part(
            sql_type,
            "date"@,
        ),
{
    reveal_strlit("tinyint(1)");
    reveal_strlit("bigint");
    reveal_strlit("tinyint");
    reveal_strlit("smallint");
    reveal_strlit("mediumint");
    reveal_strlit("int");
    reveal_strlit("timestamp");
    reveal_strlit("datetime");
    reveal_strlit("date");
    reveal_strlit("time");
    assert("tinyint(1)"@.subrange(0, 7) =~= "tinyint"@);
    assert(occurs_at("tinyint(1)"@, "tinyint"@, 0));
    assert("bigint"@.subrange(3, 6) =~= "int"@);
    assert(occurs_at("bigint"@, "int"@, 3));
    assert("tinyint"@.subrange(4, 7) =~= "int"@);
    assert(occurs_at("tinyint"@, "int"@, 4));
    assert("smallint"@.subrange(5, 8) =~= "int"@);
    assert(occurs_at("smallint"@, "int"@, 5));
    assert("mediumint"@.subrange(6, 9) =~= "int"@);
    assert(occurs_at("mediumint"@, "int"@, 6));
    assert("timestamp"@.subrange(0, 4) =~= "time"@);
    assert(occurs_at("timestamp"@, "time"@, 0));
    assert("datetime"@.subrange(4, 8) =~= "time"@);
    assert(occurs_at("datetime"@, "time"@, 4));
    assert("datetime"@.subrange(0, 4) =~= "date"@);
    assert(occurs_at("datetime"@, "date"@, 0));
    if has_part(sql_type, "tinyint(1)"@) {
        parts_have_parts(sql_type, "tinyint(1)"@, "tinyint"@);
    }
    if has_part(sql_type, "bigint"@) {
        parts_have_parts(sql_type, "bigint"@, "int"@);
    }
    if has_part(sql_type, "tinyint"@) {
        parts_have_parts(sql_type, "tinyint"@, "int"@);
    }
    if has_part(sql_type, "smallint"@) {
        parts_have_parts(sql_type, "smallint"@, "int"@);
    }
    if has_part(sql_type, "mediumint"@) {
        parts_have_parts(sql_type, "mediumint"@, "int"@);
    }
    if has_part(sql_type, "timestamp"@) {
        parts_have_parts(sql_type, "timestamp"@, "time"@);
    }
    if has_part(sql_type, "datetime"@) {
        parts_have_parts(sql_type, "datetime"@, "time"@);
        parts_have_parts(sql_type, "datetime"@, "date"@);
    }
}

/// A column whose SQL type names neither a number nor a date or a time is a column of
/// texts: every kind of character, text and blob type among them.
pub proof fn other_columns_are_texts(sql_type: Seq<char>)
    requires
        !has_part(sql_type, "int"@),
        !has_part(sql_type, "float"@),
        !has_part(sql_type, "double"@),
        !has_part(sql_type, "real"@),
        !has_part(sql_type, "decimal"@),
        !has_part(sql_type, "numeric"@),
        !has_part(sql_type, "date"@),
        !has_part(sql_type, "time"@),
    ensures
        type_for(sql_type) == ArrowType::Utf8,
{
    lemma_longer_names(sql_type);
}

/// Texts and blobs, of whatever length, are columns of texts, however their type is
/// written on.
pub proof fn texts_and_blobs_are_texts(sql_type: Seq<char>)
    requires
        has_part(sql_type, "text"@) || has_part(sql_type, "char"@) || has_part(sql_type, "blob"@),
        !has_part(sql_type, "int"@),
        !has_part(sql_type, "float"@),
        !has_part(sql_type, "double"@),
        !has_part(sql_type, "real"@),
        !has_part(sql_type, "decimal"@),
        !has_part(sql_type, "numeric"@),
        !has_part(sql_type, "date"@),
        !has_part(sql_type, "time"@),
    ensures
        type_for(sql_type) == ArrowType::Utf8,
        delta_type(type_for(sql_type)) == DeltaType::Text,
{
    other_columns_are_texts(sql_type);
}

/// A column of integers has the width of its SQL type, and those of four and of eight
/// bytes have a type without a sign where they are declared so. A tiny integer of one
/// digit is a truth value.
pub proof fn integer_columns_have_their_width(sql_type: Seq<char>)
    ensures
        has_part(sql_type, "tinyint(1)"@) ==> type_for(sql_type) == ArrowType::Boolean,
        has_part(sql_type, "bigint"@) && !has_part(sql_type, "tinyint(1)"@) && has_part(
            sql_type,
            "unsigned"@,
        ) ==> type_for(sql_type) == ArrowType::UInt64,
        has_part(sql_type, "bigint"@) && !has_part(sql_type, "tinyint(1)"@) && !has_part(
            sql_type,
            "unsigned"@,
        ) ==> type_for(sql_type) == ArrowType::Int64,
        has_part(sql_type, "tinyint"@) && !has_part(sql_type, "tinyint(1)"@) && !has_part(
            sql_type,
            "bigint"@,
        ) ==> type_for(sql_type) == ArrowType::Int8,
        has_part(sql_type, "smallint"@) && !has_part(sql_type, "tinyint"@) && !has_part(
            sql_type,
            "bigint"@,
        ) ==> type_for(sql_type) == ArrowType::Int16,
        has_part(sql_type, "int"@) && !has_part(sql_type, "tinyint"@) && !has_part(
            sql_type,
            "smallint"@,
        ) && !has_part(sql_type, "bigint"@) && has_part(sql_type, "unsigned"@) ==> type_for(
            sql_type,
        ) == ArrowType::UInt32,
        has_part(sql_type, "int"@) && !has_part(sql_type, "tinyint"@) && !has_part(
            sql_type,
            "smallint"@,
        ) && !has_part(sql_type, "bigint"@) && !has_part(sql_type, "unsigned"@) ==> type_for(
            sql_type,
        ) == ArrowType::Int32,
{
    lemma_longer_names(sql_type);
}

/// Floats are kept in four bytes, doubles, reals and decimal numbers in eight. A point
/// in time is kept as text, a date and a time of day alone have types of their own.
pub proof fn other_columns_have_their_type(sql_type: Seq<char>)
    requires
        !has_part(sql_type, "int"@),
    ensures
        has_part(sql_type, "float"@) ==> type_for(sql_type) == ArrowType::Float32,
        !has_part(sql_type, "float"@) && (has_part(sql_type, "double"@) || has_part(
            sql_type,
            "real"@,
        ) || has_part(sql_type, "decimal"@) || has_part(sql_type, "numeric"@)) ==> type_for(
            sql_type,
        ) == ArrowType::Float64,
        !has_part(sql_type, "float"@) && !has_part(sql_type, "double"@) && !has_part(
            sql_type,
            "real"@,
        ) && !has_part(sql_type, "decimal"@) && !has_part(sql_type, "numeric"@) ==> {
            &&& has_part(sql_type, "timestamp"@) || has_part(sql_type, "datetime"@) ==> type_for(
                sql_type,
            ) == ArrowType::Utf8
            &&& has_part(sql_type, "date"@) && !has_part(sql_type, "time"@) ==> type_for(sql_type)
                == ArrowType::Date32
            &&& has_part(sql_type, "time"@) && !has_part(sql_type, "timestamp"@) && !has_part(
                sql_type,
                "date"@,
            ) ==> type_for(sql_type) == ArrowType::Time64Microsecond
        },
{
    lemma_longer_names(sql_type);
}

proof fn lemma_tinyint_column()
    ensures
        type_for(lowercase("tinyint"@)) == ArrowType::Int8,
{
    reveal_strlit("bigint");
    reveal_strlit("tinyint");
    reveal_strlit("tinyint(1)");
    let name = "tinyint"@;
    assert forall|j: int| 0 <= j < name.len() implies '\0' <= (#[trigger] name[j]) <= '\u{7f}'
        && !('A' <= name[j] <= 'Z') && name[j] != '(' && name[j] != 'b' by {
        assert(j == 0 || j == 1 || j == 2 || j == 3 || j == 4 || j == 5 || j == 6);
    }
    lower_case_stays(name);
    lemma_lacks(name, "tinyint(1)"@, 7);
    lemma_lacks(name, "bigint"@, 0);
    lemma_has_itself(name);
    lemma_longer_names(name);
    integer_columns_have_their_width(name);
}

proof fn lemma_smallint_column()
    ensures
        type_for(lowercase("smallint"@)) == ArrowType::Int16,
{
    reveal_strlit("bigint");
    reveal_strlit("smallint");
    reveal_strlit("tinyint");
    let name = "smallint"@;
    assert forall|j: int| 0 <= j < name.len() implies '\0' <= (#[trigger] name[j]) <= '\u{7f}'
        && !('A' <= name[j] <= 'Z') && name[j] != 'b' && name[j] != 'y' by {
        assert(j == 0 || j == 1 || j == 2 || j == 3 || j == 4 || j == 5 || j == 6 || j == 7);
    }
    lower_case_stays(name);
    lemma_lacks(name, "bigint"@, 0);
    lemma_lacks(name, "tinyint"@, 3);
    lemma_has_itself(name);
    lemma_longer_names(name);
    integer_columns_have_their_width(name);
}

proof fn lemma_int_column()
    ensures
        type_for(lowercase("int"@)) == ArrowType::Int32,
{
    reveal_strlit("bigint");
    reveal_strlit("int");
    reveal_strlit("smallint");
    reveal_strlit("tinyint");
    reveal_strlit("unsigned");
    let name = "int"@;
    assert forall|j: int| 0 <= j < name.len() implies '\0' <= (#[trigger] name[j]) <= '\u{7f}'
        && !('A' <= name[j] <= 'Z') && name[j] != 'a' && name[j] != 'g' && name[j] != 'y' by {
        assert(j == 0 || j == 1 || j == 2);
    }
    lower_case_stays(name);
    lemma_lacks(name, "bigint"@, 2);
    lemma_lacks(name, "tinyint"@, 3);
    lemma_lacks(name, "smallint"@, 2);
    lemma_lacks(name, "unsigned"@, 4);
    lemma_has_itself(name);
    lemma_longer_names(name);
    integer_columns_have_their_width(name);
}

proof fn lemma_float_column()
    ensures
        type_for(lowercase("float"@)) == ArrowType::Float32,
{
    reveal_strlit("float");
    reveal_strlit("int");
    let name = "float"@;
    assert forall|j: int| 0 <= j < name.len() implies '\0' <= (#[trigger] name[j]) <= '\u{7f}'
        && !('A' <= name[j] <= 'Z') && name[j] != 'i' by {
        assert(j == 0 || j == 1 || j == 2 || j == 3 || j == 4);
    }
    lower_case_stays(name);
    lemma_lacks(name, "int"@, 0);
    lemma_has_itself(name);
    other_columns_have_their_type(name);
}

proof fn lemma_double_column()
    ensures
        type_for(lowercase("double"@)) == ArrowType::Float64,
{
    reveal_strlit("double");
    reveal_strlit("float");
    reveal_strlit("int");
    let name = "double"@;
    assert forall|j: int| 0 <= j < name.len() implies '\0' <= (#[trigger] name[j]) <= '\u{7f}'
        && !('A' <= name[j] <= 'Z') && name[j] != 't' by {
        assert(j == 0 || j == 1 || j == 2 || j == 3 || j == 4 || j == 5);
    }
    lower_case_stays(name);
    lemma_lacks(name, "int"@, 2);
    lemma_lacks(name, "float"@, 4);
    lemma_has_itself(name);
    other_columns_have_their_type(name);
}

proof fn lemma_timestamp_column()
    ensures
        type_for(lowercase("timestamp"@)) == ArrowType::Utf8,
{
    reveal_strlit("decimal");
    reveal_strlit("double");
    reveal_strlit("float");
    reveal_strlit("int");
    reveal_strlit("numeric");
    reveal_strlit("real");
    reveal_strlit("timestamp");
    let name = "timestamp"@;
    assert forall|j: int| 0 <= j < name.len() implies '\0' <= (#[trigger] name[j]) <= '\u{7f}'
        && !('A' <= name[j] <= 'Z') && name[j] != 'l' && name[j] != 'n' by {
        assert(j == 0 || j == 1 || j == 2 || j == 3 || j == 4 || j == 5 || j == 6 || j == 7
            || j == 8);
    }
    lower_case_stays(name);
    lemma_lacks(name, "int"@, 1);
    lemma_lacks(name, "float"@, 1);
    lemma_lacks(name, "double"@, 4);
    lemma_lacks(name, "real"@, 3);
    lemma_lacks(name, "decimal"@, 6);
    lemma_lacks(name, "numeric"@, 0);
    lemma_has_itself(name);
    other_columns_have_their_type(name);
}

proof fn lemma_bigint_column()
    ensures
        type_for(lowercase("bigint"@)) == ArrowType::Int64,
{
    reveal_strlit("bigint");
    reveal_strlit("tinyint(1)");
    reveal_strlit("unsigned");
    let name = "bigint"@;
    assert forall|j: int| 0 <= j < name.len() implies '\0' <= (#[trigger] name[j]) <= '\u{7f}'
        && !('A' <= name[j] <= 'Z') && name[j] != '(' && name[j] != 'd' by {
        assert(j == 0 || j == 1 || j == 2 || j == 3 || j == 4 || j == 5);
    }
    lower_case_stays(name);
    lemma_lacks(name, "tinyint(1)"@, 7);
    lemma_lacks(name, "unsigned"@, 7);
    lemma_has_itself(name);
    lemma_longer_names(name);
    integer_columns_have_their_width(name);
}

proof fn lemma_mediumint_column()
    ensures
        type_for(lowercase("mediumint"@)) == ArrowType::Int32,
{
    reveal_strlit("bigint");
    reveal_strlit("mediumint");
    reveal_strlit("smallint");
    reveal_strlit("tinyint");
    reveal_strlit("unsigned");
    let name = "mediumint"@;
    assert forall|j: int| 0 <= j < name.len() implies '\0' <= (#[trigger] name[j]) <= '\u{7f}'
        && !('A' <= name[j] <= 'Z') && name[j] != 'a' && name[j] != 'g' && name[j] != 'y' by {
        assert(j == 0 || j == 1 || j == 2 || j == 3 || j == 4 || j == 5 || j == 6 || j == 7
            || j == 8);
    }
    lower_case_stays(name);
    lemma_lacks(name, "bigint"@, 2);
    lemma_lacks(name, "tinyint"@, 3);
    lemma_lacks(name, "smallint"@, 2);
    lemma_lacks(name, "unsigned"@, 4);
    lemma_has_itself(name);
    lemma_longer_names(name);
    integer_columns_have_their_width(name);
}

proof fn lemma_date_column()
    ensures
        type_for(lowercase("date"@)) == ArrowType::Date32,
{
    reveal_strlit("date");
    reveal_strlit("decimal");
    reveal_strlit("double");
    reveal_strlit("float");
    reveal_strlit("int");
    reveal_strlit("numeric");
    reveal_strlit("real");
    reveal_strlit("time");
    let name = "date"@;
    assert forall|j: int| 0 <= j < name.len() implies '\0' <= (#[trigger] name[j]) <= '\u{7f}'
        && !('A' <= name[j] <= 'Z') && name[j] != 'i' && name[j] != 'l' by {
        assert(j == 0 || j == 1 || j == 2 || j == 3);
    }
    lower_case_stays(name);
    lemma_lacks(name, "int"@, 0);
    lemma_lacks(name, "float"@, 1);
    lemma_lacks(name, "double"@, 4);
    lemma_lacks(name, "real"@, 3);
    lemma_lacks(name, "decimal"@, 3);
    lemma_lacks(name, "numeric"@, 5);
    lemma_lacks(name, "time"@, 1);
    lemma_has_itself(name);
    other_columns_have_their_type(name);
}

proof fn lemma_time_column()
    ensures
        type_for(lowercase("time"@)) == ArrowType::Time64Microsecond,
{
    reveal_strlit("date");
    reveal_strlit("decimal");
    reveal_strlit("double");
    reveal_strlit("float");
    reveal_strlit("int");
    reveal_strlit("numeric");
    reveal_strlit("real");
    reveal_strlit("time");
    reveal_strlit("timestamp");
    let name = "time"@;
    assert forall|j: int| 0 <= j < name.len() implies '\0' <= (#[trigger] name[j]) <= '\u{7f}'
        && !('A' <= name[j] <= 'Z') && name[j] != 'a' && name[j] != 'b' && name[j] != 'n' by {
        assert(j == 0 || j == 1 || j == 2 || j == 3);
    }
    lower_case_stays(name);
    lemma_lacks(name, "int"@, 1);
    lemma_lacks(name, "float"@, 3);
    lemma_lacks(name, "double"@, 3);
    lemma_lacks(name, "real"@, 2);
    lemma_lacks(name, "decimal"@, 5);
    lemma_lacks(name, "numeric"@, 0);
    lemma_lacks(name, "timestamp"@, 6);
    lemma_lacks(name, "date"@, 1);
    lemma_has_itself(name);
    other_columns_have_their_type(name);
}

proof fn lemma_datetime_column()
    ensures
        type_for(lowercase("datetime"@)) == ArrowType::Utf8,
{
    reveal_strlit("datetime");
    reveal_strlit("decimal");
    reveal_strlit("double");
    reveal_strlit("float");
    reveal_strlit("int");
    reveal_strlit("numeric");
    reveal_strlit("real");
    let name = "datetime"@;
    assert forall|j: int| 0 <= j < name.len() implies '\0' <= (#[trigger] name[j]) <= '\u{7f}'
        && !('A' <= name[j] <= 'Z') && name[j] != 'l' && name[j] != 'n' by {
        assert(j == 0 || j == 1 || j == 2 || j == 3 || j == 4 || j == 5 || j == 6 || j == 7);
    }
    lower_case_stays(name);
    lemma_lacks(name, "int"@, 1);
    lemma_lacks(name, "float"@, 1);
    lemma_lacks(name, "double"@, 4);
    lemma_lacks(name, "real"@, 3);
    lemma_lacks(name, "decimal"@, 6);
    lemma_lacks(name, "numeric"@, 0);
    lemma_has_itself(name);
    other_columns_have_their_type(name);
}

proof fn lemma_varchar_column()
    ensures
        type_for(lowercase("varchar"@)) == ArrowType::Utf8,
{
    reveal_strlit("date");
    reveal_strlit("decimal");
    reveal_strlit("double");
    reveal_strlit("float");
    reveal_strlit("int");
    reveal_strlit("numeric");
    reveal_strlit("real");
    reveal_strlit("time");
    reveal_strlit("varchar");
    let name = "varchar"@;
    assert forall|j: int| 0 <= j < name.len() implies '\0' <= (#[trigger] name[j]) <= '\u{7f}'
        && !('A' <= name[j] <= 'Z') && name[j] != 'e' && name[j] != 't' by {
        assert(j == 0 || j == 1 || j == 2 || j == 3 || j == 4 || j == 5 || j == 6);
    }
    lower_case_stays(name);
    lemma_lacks(name, "int"@, 2);
    lemma_lacks(name, "float"@, 4);
    lemma_lacks(name, "double"@, 5);
    lemma_lacks(name, "real"@, 1);
    lemma_lacks(name, "decimal"@, 1);
    lemma_lacks(name, "numeric"@, 3);
    lemma_lacks(name, "date"@, 3);
    lemma_lacks(name, "time"@, 3);
    other_columns_are_texts(name);
}

proof fn lemma_bit_column()
    ensures
        type_for(lowercase("bit"@)) == ArrowType::Utf8,
{
    reveal_strlit("bit");
    reveal_strlit("date");
    reveal_strlit("decimal");
    reveal_strlit("double");
    reveal_strlit("float");
    reveal_strlit("int");
    reveal_strlit("numeric");
    reveal_strlit("real");
    reveal_strlit("time");
    let name = "bit"@;
    assert forall|j: int| 0 <= j < name.len() implies '\0' <= (#[trigger] name[j]) <= '\u{7f}'
        && !('A' <= name[j] <= 'Z') && name[j] != 'a' && name[j] != 'e' && name[j] != 'n' by {
        assert(j == 0 || j == 1 || j == 2);
    }
    lower_case_stays(name);
    lemma_lacks(name, "int"@, 1);
    lemma_lacks(name, "float"@, 3);
    lemma_lacks(name, "double"@, 5);
    lemma_lacks(name, "real"@, 2);
    lemma_lacks(name, "decimal"@, 5);
    lemma_lacks(name, "numeric"@, 3);
    lemma_lacks(name, "date"@, 1);
    lemma_lacks(name, "time"@, 3);
    other_columns_are_texts(name);
}

proof fn lemma_decimal_column()
    ensures
        type_for(lowercase("decimal"@)) == ArrowType::Float64,
{
    reveal_strlit("decimal");
    reveal_strlit("float");
    reveal_strlit("int");
    let name = "decimal"@;
    assert forall|j: int| 0 <= j < name.len() implies '\0' <= (#[trigger] name[j]) <= '\u{7f}'
        && !('A' <= name[j] <= 'Z') && name[j] != 't' by {
        assert(j == 0 || j == 1 || j == 2 || j == 3 || j == 4 || j == 5 || j == 6);
    }
    lower_case_stays(name);
    lemma_lacks(name, "int"@, 2);
    lemma_lacks(name, "float"@, 4);
    lemma_has_itself(name);
    other_columns_have_their_type(name);
}

proof fn lemma_enum_column()
    ensures
        type_for(lowercase("enum"@)) == ArrowType::Utf8,
{
    reveal_strlit("date");
    reveal_strlit("decimal");
    reveal_strlit("double");
    reveal_strlit("enum");
    reveal_strlit("float");
    reveal_strlit("int");
    reveal_strlit("numeric");
    reveal_strlit("real");
    reveal_strlit("time");
    let name = "enum"@;
    assert forall|j: int| 0 <= j < name.len() implies '\0' <= (#[trigger] name[j]) <= '\u{7f}'
        && !('A' <= name[j] <= 'Z') && name[j] != 'a' && name[j] != 'b' && name[j] != 'i' by {
        assert(j == 0 || j == 1 || j == 2 || j == 3);
    }
    lower_case_stays(name);
    lemma_lacks(name, "int"@, 0);
    lemma_lacks(name, "float"@, 3);
    lemma_lacks(name, "double"@, 3);
    lemma_lacks(name, "real"@, 2);
    lemma_lacks(name, "decimal"@, 5);
    lemma_lacks(name, "numeric"@, 5);
    lemma_lacks(name, "date"@, 1);
    lemma_lacks(name, "time"@, 1);
    other_columns_are_texts(name);
}

proof fn lemma_set_column()
    ensures
        type_for(lowercase("set"@)) == ArrowType::Utf8,
{
    reveal_strlit("date");
    reveal_strlit("decimal");
    reveal_strlit("double");
    reveal_strlit("float");
    reveal_strlit("int");
    reveal_strlit("numeric");
    reveal_strlit("real");
    reveal_strlit("set");
    reveal_strlit("time");
    let name = "set"@;
    assert forall|j: int| 0 <= j < name.len() implies '\0' <= (#[trigger] name[j]) <= '\u{7f}'
        && !('A' <= name[j] <= 'Z') && name[j] != 'a' && name[j] != 'b' && name[j] != 'i' by {
        assert(j == 0 || j == 1 || j == 2);
    }
    lower_case_stays(name);
    lemma_lacks(name, "int"@, 0);
    lemma_lacks(name, "float"@, 3);
    lemma_lacks(name, "double"@, 3);
    lemma_lacks(name, "real"@, 2);
    lemma_lacks(name, "decimal"@, 5);
    lemma_lacks(name, "numeric"@, 5);
    lemma_lacks(name, "date"@, 1);
    lemma_lacks(name, "time"@, 1);
    other_columns_are_texts(name);
}

proof fn lemma_tinyblob_column()
    ensures
        type_for(lowercase("tinyblob"@)) == ArrowType::Utf8,
{
    reveal_strlit("date");
    reveal_strlit("decimal");
    reveal_strlit("double");
    reveal_strlit("float");
    reveal_strlit("int");
    reveal_strlit("numeric");
    reveal_strlit("real");
    reveal_strlit("time");
    reveal_strlit("tinyblob");
    let name = "tinyblob"@;
    assert forall|j: int| 0 <= j < name.len() implies '\0' <= (#[trigger] name[j]) <= '\u{7f}'
        && !('A' <= name[j] <= 'Z') && name[j] != 'a' && name[j] != 'e' by {
        assert(j == 0 || j == 1 || j == 2 || j == 3 || j == 4 || j == 5 || j == 6 || j == 7);
    }
    lower_case_stays(name);
    lemma_lacks(name, "float"@, 3);
    lemma_lacks(name, "double"@, 5);
    lemma_lacks(name, "real"@, 2);
    lemma_lacks(name, "decimal"@, 5);
    lemma_lacks(name, "numeric"@, 3);
    lemma_lacks(name, "date"@, 1);
    lemma_lacks(name, "time"@, 3);
    assert(!has_part(name, "int"@)) by {
        if has_part(name, "int"@) {
            let at = choose|at: int| occurs_at(name, "int"@, at);
            let found = name.subrange(at, at + "int"@.len());
            assert(found[0] == name[at]);
            assert(found[1] == name[at + 1]);
            assert(found[2] == name[at + 2]);
            assert(at == 0 || at == 1 || at == 2 || at == 3 || at == 4 || at == 5);
        }
    }
    other_columns_are_texts(name);
}

proof fn lemma_mediumblob_column()
    ensures
        type_for(lowercase("mediumblob"@)) == ArrowType::Utf8,
{
    reveal_strlit("date");
    reveal_strlit("decimal");
    reveal_strlit("double");
    reveal_strlit("float");
    reveal_strlit("int");
    reveal_strlit("mediumblob");
    reveal_strlit("numeric");
    reveal_strlit("real");
    reveal_strlit("time");
    let name = "mediumblob"@;
    assert forall|j: int| 0 <= j < name.len() implies '\0' <= (#[trigger] name[j]) <= '\u{7f}'
        && !('A' <= name[j] <= 'Z') && name[j] != 'a' && name[j] != 'c' && name[j] != 't' by {
        assert(j == 0 || j == 1 || j == 2 || j == 3 || j == 4 || j == 5 || j == 6 || j == 7
            || j == 8 || j == 9);
    }
    lower_case_stays(name);
    lemma_lacks(name, "int"@, 2);
    lemma_lacks(name, "float"@, 3);
    lemma_lacks(name, "real"@, 2);
    lemma_lacks(name, "decimal"@, 5);
    lemma_lacks(name, "numeric"@, 6);
    lemma_lacks(name, "date"@, 1);
    lemma_lacks(name, "time"@, 0);
    assert(!has_part(name, "double"@)) by {
        if has_part(name, "double"@) {
            let at = choose|at: int| occurs_at(name, "double"@, at);
            let found = name.subrange(at, at + "double"@.len());
            assert(found[0] == name[at]);
            assert(found[1] == name[at + 1]);
            assert(found[2] == name[at + 2]);
            assert(at == 0 || at == 1 || at == 2 || at == 3 || at == 4);
        }
    }
    other_columns_are_texts(name);
}

proof fn lemma_longblob_column()
    ensures
        type_for(lowercase("longblob"@)) == ArrowType::Utf8,
{
    reveal_strlit("date");
    reveal_strlit("decimal");
    reveal_strlit("double");
    reveal_strlit("float");
    reveal_strlit("int");
    reveal_strlit("longblob");
    reveal_strlit("numeric");
    reveal_strlit("real");
    reveal_strlit("time");
    let name = "longblob"@;
    assert forall|j: int| 0 <= j < name.len() implies '\0' <= (#[trigger] name[j]) <= '\u{7f}'
        && !('A' <= name[j] <= 'Z') && name[j] != 'e' && name[j] != 't' by {
        assert(j == 0 || j == 1 || j == 2 || j == 3 || j == 4 || j == 5 || j == 6 || j == 7);
    }
    lower_case_stays(name);
    lemma_lacks(name, "int"@, 2);
    lemma_lacks(name, "float"@, 4);
    lemma_lacks(name, "double"@, 5);
    lemma_lacks(name, "real"@, 1);
    lemma_lacks(name, "decimal"@, 1);
    lemma_lacks(name, "numeric"@, 3);
    lemma_lacks(name, "date"@, 3);
    lemma_lacks(name, "time"@, 3);
    other_columns_are_texts(name);
}

proof fn lemma_blob_column()
    ensures
        type_for(lowercase("blob"@)) == ArrowType::Utf8,
{
    reveal_strlit("blob");
    reveal_strlit("date");
    reveal_strlit("decimal");
    reveal_strlit("double");
    reveal_strlit("float");
    reveal_strlit("int");
    reveal_strlit("numeric");
    reveal_strlit("real");
    reveal_strlit("time");
    let name = "blob"@;
    assert forall|j: int| 0 <= j < name.len() implies '\0' <= (#[trigger] name[j]) <= '\u{7f}'
        && !('A' <= name[j] <= 'Z') && name[j] != 'e' && name[j] != 't' by {
        assert(j == 0 || j == 1 || j == 2 || j == 3);
    }
    lower_case_stays(name);
    lemma_lacks(name, "int"@, 2);
    lemma_lacks(name, "float"@, 4);
    lemma_lacks(name, "double"@, 5);
    lemma_lacks(name, "real"@, 1);
    lemma_lacks(name, "decimal"@, 1);
    lemma_lacks(name, "numeric"@, 3);
    lemma_lacks(name, "date"@, 3);
    lemma_lacks(name, "time"@, 3);
    other_columns_are_texts(name);
}

proof fn lemma_char_column()
    ensures
        type_for(lowercase("char"@)) == ArrowType::Utf8,
{
    reveal_strlit("char");
    reveal_strlit("date");
    reveal_strlit("decimal");
    reveal_strlit("double");
    reveal_strlit("float");
    reveal_strlit("int");
    reveal_strlit("numeric");
    reveal_strlit("real");
    reveal_strlit("time");
    let name = "char"@;
    assert forall|j: int| 0 <= j < name.len() implies '\0' <= (#[trigger] name[j]) <= '\u{7f}'
        && !('A' <= name[j] <= 'Z') && name[j] != 'e' && name[j] != 't' by {
        assert(j == 0 || j == 1 || j == 2 || j == 3);
    }
    lower_case_stays(name);
    lemma_lacks(name, "int"@, 2);
    lemma_lacks(name, "float"@, 4);
    lemma_lacks(name, "double"@, 5);
    lemma_lacks(name, "real"@, 1);
    lemma_lacks(name, "decimal"@, 1);
    lemma_lacks(name, "numeric"@, 3);
    lemma_lacks(name, "date"@, 3);
    lemma_lacks(name, "time"@, 3);
    other_columns_are_texts(name);
}

proof fn lemma_unknown_column(tp: i32)
    ensures
        type_for(lowercase("unknown_type_"@ + signed_decimal(tp as int))) == ArrowType::Utf8,
{
    reveal_strlit("unknown_type_");
    reveal_strlit("int");
    reveal_strlit("float");
    reveal_strlit("double");
    reveal_strlit("real");
    reveal_strlit("decimal");
    reveal_strlit("numeric");
    reveal_strlit("date");
    reveal_strlit("time");
    let start = "unknown_type_"@;
    let number = signed_decimal(tp as int);
    let name = start + number;
    decimal_reads_back(if tp < 0 {
        (-tp) as nat
    } else {
        tp as nat
    });
    assert forall|j: int| 0 <= j < number.len() implies is_digit(#[trigger] number[j]) || number[j]
        == '-' by {
        if tp < 0 && j > 0 {
            assert(number[j] == decimal((-tp) as nat)[j - 1]);
        }
    }
    assert forall|j: int| 0 <= j < name.len() implies '\0' <= (#[trigger] name[j]) <= '\u{7f}'
        && !('A' <= name[j] <= 'Z') && name[j] != 'i' && name[j] != 'l' && name[j] != 'd' by {
        if j < 13 {
            assert(name[j] == start[j]);
            assert(j == 0 || j == 1 || j == 2 || j == 3 || j == 4 || j == 5 || j == 6 || j == 7 || j
                == 8 || j == 9 || j == 10 || j == 11 || j == 12);
        } else {
            assert(name[j] == number[j - 13]);
        }
    }
    lower_case_stays(name);
    lemma_lacks(name, "int"@, 0);
    lemma_lacks(name, "float"@, 1);
    lemma_lacks(name, "double"@, 0);
    lemma_lacks(name, "real"@, 3);
    lemma_lacks(name, "decimal"@, 0);
    lemma_lacks(name, "numeric"@, 5);
    lemma_lacks(name, "date"@, 0);
    lemma_lacks(name, "time"@, 1);
    other_columns_are_texts(name);
}

/// A column that the coprocessor describes by the number of its type has the type for
/// what the coprocessor sends: numbers are numbers, floats are floats, and all texts,
/// blobs, enumerations, sets, bits, points in time and unknown types are texts.
pub proof fn numbered_types_have_columns(tp: i32)
    ensures
        ({
            let kept = type_for(lowercase(sql_type_name(tp)));
            &&& tp == 1 ==> kept == ArrowType::Int8
            &&& tp == 2 ==> kept == ArrowType::Int16
            &&& tp == 3 || tp == 9 ==> kept == ArrowType::Int32
            &&& tp == 8 ==> kept == ArrowType::Int64
            &&& tp == 4 ==> kept == ArrowType::Float32
            &&& tp == 5 || tp == 246 ==> kept == ArrowType::Float64
            &&& tp == 10 ==> kept == ArrowType::Date32
            &&& tp == 11 ==> kept == ArrowType::Time64Microsecond
            &&& tp == 7 || tp == 12 || tp == 15 || tp == 16 || 247 <= tp <= 254 ==> kept
                == ArrowType::Utf8
            &&& tp <= 0 || tp == 6 || 13 <= tp <= 14 || 17 <= tp <= 245 || tp > 254 ==> kept
                == ArrowType::Utf8
        }),
{
    lemma_tinyint_column();
    lemma_smallint_column();
    lemma_int_column();
    lemma_float_column();
    lemma_double_column();
    lemma_timestamp_column();
    lemma_bigint_column();
    lemma_mediumint_column();
    lemma_date_column();
    lemma_time_column();
    lemma_datetime_column();
    lemma_varchar_column();
    lemma_bit_column();
    lemma_decimal_column();
    lemma_enum_column();
    lemma_set_column();
    lemma_tinyblob_column();
    lemma_mediumblob_column();
    lemma_longblob_column();
    lemma_blob_column();
    lemma_char_column();
    lemma_unknown_column(tp);
}

/// The Delta Lake type has the width and the kind of the type in memory. Integers
/// without a sign have the type of their width, and what Delta Lake does not know is a
/// text.
pub proof fn delta_types_keep_kind_and_width(arrow_type: ArrowType)
    ensures
        arrow_type is Boolean <==> delta_type(arrow_type) is Boolean,
        arrow_type is Int8 <==> delta_type(arrow_type) is Byte,
        arrow_type is Int16 <==> delta_type(arrow_type) is Short,
        arrow_type is Int32 || arrow_type is UInt32 <==> delta_type(arrow_type) is Integer,
        arrow_type is Int64 || arrow_type is UInt64 <==> delta_type(arrow_type) is Long,
        arrow_type is Float32 <==> delta_type(arrow_type) is Float,
        arrow_type is Float64 <==> delta_type(arrow_type) is Double,
        arrow_type is Binary || arrow_type is LargeBinary <==> delta_type(arrow_type) is Binary,
        arrow_type is TimestampMicrosecond || arrow_type is TimestampOther <==> delta_type(
            arrow_type,
        ) is Timestamp,
        arrow_type is Date32 || arrow_type is Date64 <==> delta_type(arrow_type) is Date,
        arrow_type is Utf8 || arrow_type is LargeUtf8 || arrow_type is Time64Microsecond
            || arrow_type is Other <==> delta_type(arrow_type) is Text,
{
}

/// A column of the coprocessor that is a text, a blob, an enumeration or a set, as the
/// name that its type is given, is a column of texts, in memory and in Delta Lake.
pub proof fn named_texts_are_texts(
    tp: i32,
    name: String,
    written: &str,
    kept: ArrowType,
    stored: DeltaType,
)
    requires
        call_ensures(mysql_type_to_string, (tp,), name),
        written@ == name@,
        call_ensures(mysql_type_to_arrow_type, (written,), kept),
        call_ensures(arrow_type_to_delta_type, (&kept,), stored),
    ensures
        tp == 15 || 247 <= tp <= 254 ==> kept == ArrowType::Utf8 && stored == DeltaType::Text,
        tp == 1 ==> kept == ArrowType::Int8 && stored == DeltaType::Byte,
        tp == 2 ==> kept == ArrowType::Int16 && stored == DeltaType::Short,
        tp == 3 || tp == 9 ==> kept == ArrowType::Int32 && stored == DeltaType::Integer,
        tp == 8 ==> kept == ArrowType::Int64 && stored == DeltaType::Long,
        tp == 5 || tp == 246 ==> kept == ArrowType::Float64 && stored == DeltaType::Double,
        tp == 7 || tp == 12 ==> kept == ArrowType::Utf8,
{
    numbered_types_have_columns(tp);
}

} // verus!
