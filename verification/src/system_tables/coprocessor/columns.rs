//! The columns of a table, and how the values of a column are brought into the
//! form that its type asks for.
use vstd::prelude::*;
use vstd::string::*;
use crate::system_tables::coprocessor::codec::{TYPE_DATETIME, TYPE_TIMESTAMP};
use crate::system_tables::coprocessor::packed_time::{decode_packed_time_to_string, packed_text};
use crate::text::{
    append_decimal, append_signed, decimal, integer_in, other_characters_write_no_integer,
    parse_integer, same, signed_decimal, signed_decimal_reads_back, signed_text,
};
use crate::value::{FloatForm, FloatFormView, Number, Value, ValueView, finite_bits};

verus! {

pub const TYPE_TINY: i32 = 1;

pub const TYPE_SHORT: i32 = 2;

pub const TYPE_LONG: i32 = 3;

pub const TYPE_FLOAT: i32 = 4;

pub const TYPE_DOUBLE: i32 = 5;

pub const TYPE_LONGLONG: i32 = 8;

pub const TYPE_INT24: i32 = 9;

pub const TYPE_DATE: i32 = 10;

pub const TYPE_DURATION: i32 = 11;

pub const TYPE_VARCHAR: i32 = 15;

pub const TYPE_BIT: i32 = 16;

pub const TYPE_NEWDECIMAL: i32 = 246;

pub const TYPE_ENUM: i32 = 247;

pub const TYPE_SET: i32 = 248;

pub const TYPE_TINY_BLOB: i32 = 249;

pub const TYPE_MEDIUM_BLOB: i32 = 250;

pub const TYPE_LONG_BLOB: i32 = 251;

pub const TYPE_BLOB: i32 = 252;

pub const TYPE_VAR_STRING: i32 = 253;

pub const TYPE_STRING: i32 = 254;

/// A column of a table.
#[derive(Debug, PartialEq)]
pub struct TableColumn {
    pub id: i64,
    pub tp: i32,
    pub name: Option<String>,
}

/// Table schema information.
#[derive(Debug, PartialEq)]
pub struct TableSchema {
    pub id: i64,
    pub columns: Vec<TableColumn>,
}

impl Clone for TableColumn {
    fn clone(&self) -> (r: Self)
        ensures
            r == *self,
    {
        TableColumn {
            id: self.id,
            tp: self.tp,
            name: match &self.name {
                Some(s) => Some(s.clone()),
                None => None,
            },
        }
    }
}

impl Clone for TableSchema {
    fn clone(&self) -> (r: Self)
        ensures
            r.id == self.id,
            r.columns@ == self.columns@,
    {
        let mut columns: Vec<TableColumn> = Vec::new();
        let mut i: usize = 0;
        while i < self.columns.len()
            invariant
                i <= self.columns@.len(),
                columns@ == self.columns@.take(i as int),
            decreases self.columns@.len() - i,
        {
            columns.push(self.columns[i].clone());
            i += 1;
            assert(columns@ =~= self.columns@.take(i as int));
        }
        assert(self.columns@.take(i as int) =~= self.columns@);
        TableSchema { id: self.id, columns }
    }
}

/// The name under which a column is stored.
pub open spec fn column_label(column: TableColumn, index: int) -> Seq<char> {
    match column.name {
        Some(name) => name@,
        None => "col_"@ + decimal(index as nat),
    }
}

/// Get column name from schema or generate one.
pub fn get_column_name(table_col: &TableColumn, col_idx: usize) -> (r: String)
    ensures
        r@ == column_label(*table_col, col_idx as int),
{
    match &table_col.name {
        Some(name) => name.clone(),
        None => {
            let mut name = "col_".to_string();
            append_decimal(&mut name, col_idx as u64);
            name
        },
    }
}

/// The name of a column type.
pub open spec fn sql_type_name(tp: i32) -> Seq<char> {
    if tp == TYPE_TINY {
        "tinyint"@
    } else if tp == TYPE_SHORT {
        "smallint"@
    } else if tp == TYPE_LONG {
        "int"@
    } else if tp == TYPE_FLOAT {
        "float"@
    } else if tp == TYPE_DOUBLE {
        "double"@
    } else if tp == TYPE_TIMESTAMP {
        "timestamp"@
    } else if tp == TYPE_LONGLONG {
        "bigint"@
    } else if tp == TYPE_INT24 {
        "mediumint"@
    } else if tp == TYPE_DATE {
        "date"@
    } else if tp == TYPE_DURATION {
        "time"@
    } else if tp == TYPE_DATETIME {
        "datetime"@
    } else if tp == TYPE_VARCHAR || tp == TYPE_VAR_STRING {
        "varchar"@
    } else if tp == TYPE_BIT {
        "bit"@
    } else if tp == TYPE_NEWDECIMAL {
        "decimal"@
    } else if tp == TYPE_ENUM {
        "enum"@
    } else if tp == TYPE_SET {
        "set"@
    } else if tp == TYPE_TINY_BLOB {
        "tinyblob"@
    } else if tp == TYPE_MEDIUM_BLOB {
        "mediumblob"@
    } else if tp == TYPE_LONG_BLOB {
        "longblob"@
    } else if tp == TYPE_BLOB {
        "blob"@
    } else if tp == TYPE_STRING {
        "char"@
    } else {
        "unknown_type_"@ + signed_decimal(tp as int)
    }
}

/// Convert MySQL type number to string representation.
pub fn mysql_type_to_string(mysql_type: i32) -> (r: String)
    ensures
        r@ == sql_type_name(mysql_type),
{
    match mysql_type {
        TYPE_TINY => "tinyint".to_string(),
        TYPE_SHORT => "smallint".to_string(),
        TYPE_LONG => "int".to_string(),
        TYPE_FLOAT => "float".to_string(),
        TYPE_DOUBLE => "double".to_string(),
        TYPE_TIMESTAMP => "timestamp".to_string(),
        TYPE_LONGLONG => "bigint".to_string(),
        TYPE_INT24 => "mediumint".to_string(),
        TYPE_DATE => "date".to_string(),
        TYPE_DURATION => "time".to_string(),
        TYPE_DATETIME => "datetime".to_string(),
        TYPE_VARCHAR => "varchar".to_string(),
        TYPE_BIT => "bit".to_string(),
        TYPE_NEWDECIMAL => "decimal".to_string(),
        TYPE_ENUM => "enum".to_string(),
        TYPE_SET => "set".to_string(),
        TYPE_TINY_BLOB => "tinyblob".to_string(),
        TYPE_MEDIUM_BLOB => "mediumblob".to_string(),
        TYPE_LONG_BLOB => "longblob".to_string(),
        TYPE_BLOB => "blob".to_string(),
        TYPE_VAR_STRING => "varchar".to_string(),
        TYPE_STRING => "char".to_string(),
        _ => {
            let mut name = "unknown_type_".to_string();
            append_signed(&mut name, mysql_type as i64);
            name
        },
    }
}

/// The signed integer that a value is, or that its text writes.
pub open spec fn int64_of(value: ValueView) -> Option<i64> {
    match value {
        ValueView::Number(n) => n.signed(),
        ValueView::Text(s) => match integer_in(s, true, i64::MIN as int, i64::MAX as int) {
            Some(n) => Some(n as i64),
            None => None,
        },
        _ => None,
    }
}

/// The value of a numeric column: the integer that it is or writes, or else the
/// value as it is.
pub open spec fn numeric_form(value: ValueView) -> ValueView {
    match int64_of(value) {
        Some(n) => ValueView::Number(Number::of_int(n as int)),
        None => value,
    }
}

/// The value of a float column: a double as it is, the double nearest to a signed
/// integer, the double that a text spells, and zero for all else.
pub open spec fn float_form(value: ValueView) -> ValueView {
    match value {
        ValueView::Number(Number::Float(_)) => value,
        ValueView::Number(n) => match n.signed() {
            Some(i) => ValueView::Deferred(FloatFormView::OfInteger(i)),
            None => ValueView::Number(Number::PosInt(0)),
        },
        ValueView::Text(s) => ValueView::Deferred(FloatFormView::OfText(s)),
        ValueView::Deferred(_) => value,
        _ => ValueView::Number(Number::PosInt(0)),
    }
}

/// The text of a value that holds a packed time.
pub open spec fn packed_form(value: ValueView) -> ValueView {
    match value {
        ValueView::Number(Number::PosInt(u)) => ValueView::Text(packed_text(u)),
        ValueView::Number(Number::NegInt(i)) => if i >= 0 {
            ValueView::Text(packed_text(i as u64))
        } else {
            ValueView::Text(signed_decimal(i as int))
        },
        ValueView::Number(Number::Float(bits)) => ValueView::Deferred(FloatFormView::TextOf(bits)),
        ValueView::Text(s) => match integer_in(s, false, 0, u64::MAX as int) {
            Some(u) => ValueView::Text(packed_text(u as u64)),
            None => match integer_in(s, true, i64::MIN as int, i64::MAX as int) {
                Some(i) => if i >= 0 {
                    ValueView::Text(packed_text(i as u64))
                } else {
                    value
                },
                None => value,
            },
        },
        _ => value,
    }
}

/// The value of a column of the type `tp` in the form that the type asks for.
pub open spec fn typed_form(value: ValueView, tp: i32) -> ValueView {
    if tp == TYPE_LONGLONG || tp == TYPE_LONG || tp == TYPE_TINY || tp == TYPE_SHORT || tp
        == TYPE_INT24 || tp == TYPE_NEWDECIMAL || tp == TYPE_BIT {
        numeric_form(value)
    } else if tp == TYPE_FLOAT || tp == TYPE_DOUBLE {
        match value {
            ValueView::Number(Number::Float(bits)) => if finite_bits(bits) {
                value
            } else {
                ValueView::Number(Number::Float(0))
            },
            _ => float_form(value),
        }
    } else if tp == TYPE_TIMESTAMP {
        match value {
            ValueView::Number(_) => value,
            _ => packed_form(value),
        }
    } else if tp == TYPE_DATETIME {
        packed_form(value)
    } else {
        value
    }
}

/// The value that is stored for a column: the name of the instance for the column
/// `INSTANCE`, and else the value in the form that the type asks for.
pub open spec fn column_form(
    name: Seq<char>,
    value: ValueView,
    tp: i32,
    instance: Seq<char>,
) -> ValueView {
    if name == "INSTANCE"@ {
        ValueView::Text(instance)
    } else {
        typed_form(value, tp)
    }
}

/// The signed integer that a value is, or that its text writes.
pub fn safe_int64_value(value: &Value) -> (r: Option<i64>)
    ensures
        r == int64_of(value@),
{
    match value {
        Value::Number(n) => n.as_i64(),
        Value::Text(s) => match parse_integer(
            s.as_str(),
            true,
            i64::MIN as i128,
            i64::MAX as i128,
        ) {
            Some(n) => Some(n as i64),
            None => None,
        },
        _ => None,
    }
}

/// Ensure value is properly formatted as a number for numeric columns.
pub fn ensure_numeric_value(value: &Value) -> (r: Value)
    ensures
        r@ == numeric_form(value@),
{
    match safe_int64_value(value) {
        Some(n) => Value::Number(Number::from_i64(n)),
        None => value.clone(),
    }
}

/// Ensure value is properly formatted as a float.
pub fn ensure_float_value(value: &Value) -> (r: Value)
    ensures
        r@ == float_form(value@),
{
    match value {
        Value::Number(Number::Float(_)) => value.clone(),
        Value::Number(n) => match n.as_i64() {
            Some(i) => Value::Deferred(FloatForm::OfInteger(i)),
            None => Value::Number(Number::PosInt(0)),
        },
        Value::Text(s) => Value::Deferred(FloatForm::OfText(s.clone())),
        Value::Deferred(_) => value.clone(),
        _ => Value::Number(Number::PosInt(0)),
    }
}

/// Convert a value that contains a packed time into formatted string.
pub fn convert_packed_time_value(value: &Value) -> (r: Value)
    ensures
        r@ == packed_form(value@),
{
    match value {
        Value::Number(Number::PosInt(u)) => Value::Text(decode_packed_time_to_string(*u)),
        Value::Number(Number::NegInt(i)) => if *i >= 0 {
            Value::Text(decode_packed_time_to_string(*i as u64))
        } else {
            Value::Text(signed_text(*i))
        },
        Value::Number(Number::Float(bits)) => Value::Deferred(FloatForm::TextOf(*bits)),
        Value::Text(s) => {
            if let Some(u) = parse_integer(s.as_str(), false, 0, u64::MAX as i128) {
                return Value::Text(decode_packed_time_to_string(u as u64));
            }
            if let Some(i) = parse_integer(s.as_str(), true, i64::MIN as i128, i64::MAX as i128) {
                if i >= 0 {
                    return Value::Text(decode_packed_time_to_string(i as u64));
                }
            }
            Value::Text(s.clone())
        },
        _ => value.clone(),
    }
}

/// Process column value based on data type and column semantics.
pub fn process_column_value(
    column_name: &str,
    value: &Value,
    table_col: &TableColumn,
    instance: &str,
) -> (r: Value)
    ensures
        r@ == column_form(column_name@, value@, table_col.tp, instance@),
{
    if same(column_name, "INSTANCE") {
        return Value::Text(instance.to_string());
    }
    match table_col.tp {
        TYPE_LONGLONG | TYPE_LONG | TYPE_TINY | TYPE_SHORT | TYPE_INT24 => ensure_numeric_value(
            value,
        ),
        TYPE_FLOAT | TYPE_DOUBLE => {
            if let Value::Number(Number::Float(bits)) = value {
                return match Number::from_bits(*bits) {
                    Number::Float(same_bits) => Value::Number(Number::Float(same_bits)),
                    _ => Value::Number(Number::Float(0)),
                };
            }
            ensure_float_value(value)
        },
        TYPE_NEWDECIMAL | TYPE_BIT => ensure_numeric_value(value),
        TYPE_TIMESTAMP => match value {
            Value::Number(_) => value.clone(),
            _ => convert_packed_time_value(value),
        },
        TYPE_DATETIME => convert_packed_time_value(value),
        _ => value.clone(),
    }
}

/// The types of columns, by their numbers, have the names that they have in SQL.
pub proof fn types_have_their_sql_names(tp: i32)
    ensures
        tp == 1 ==> sql_type_name(tp) == "tinyint"@,
        tp == 2 ==> sql_type_name(tp) == "smallint"@,
        tp == 3 ==> sql_type_name(tp) == "int"@,
        tp == 4 ==> sql_type_name(tp) == "float"@,
        tp == 5 ==> sql_type_name(tp) == "double"@,
        tp == 7 ==> sql_type_name(tp) == "timestamp"@,
        tp == 8 ==> sql_type_name(tp) == "bigint"@,
        tp == 9 ==> sql_type_name(tp) == "mediumint"@,
        tp == 10 ==> sql_type_name(tp) == "date"@,
        tp == 11 ==> sql_type_name(tp) == "time"@,
        tp == 12 ==> sql_type_name(tp) == "datetime"@,
        tp == 15 ==> sql_type_name(tp) == "varchar"@,
        tp == 16 ==> sql_type_name(tp) == "bit"@,
        tp == 246 ==> sql_type_name(tp) == "decimal"@,
        tp == 247 ==> sql_type_name(tp) == "enum"@,
        tp == 248 ==> sql_type_name(tp) == "set"@,
        tp == 249 ==> sql_type_name(tp) == "tinyblob"@,
        tp == 250 ==> sql_type_name(tp) == "mediumblob"@,
        tp == 251 ==> sql_type_name(tp) == "longblob"@,
        tp == 252 ==> sql_type_name(tp) == "blob"@,
        tp == 253 ==> sql_type_name(tp) == "varchar"@,
        tp == 254 ==> sql_type_name(tp) == "char"@,
        tp <= 0 || tp == 6 || 13 <= tp <= 14 || 17 <= tp <= 245 || tp > 254 ==> sql_type_name(tp)
            == "unknown_type_"@ + signed_decimal(tp as int),
{
}

/// What is neither a number nor a text is kept as it is, but for a column of floats,
/// which holds zero for it; a double that is yet to be made is kept everywhere.
pub proof fn other_values_are_kept(
    name: Seq<char>,
    value: ValueView,
    tp: i32,
    instance: Seq<char>,
)
    requires
        name != "INSTANCE"@,
        !(value is Number),
        !(value is Text),
    ensures
        tp != 4 && tp != 5 ==> column_form(name, value, tp, instance) == value,
        tp == 4 || tp == 5 ==> column_form(name, value, tp, instance) == (if value is Deferred {
            value
        } else {
            ValueView::Number(Number::PosInt(0))
        }),
{
}

/// A double that is infinite or no number is zero in a column of floats, and stays a
/// double.
pub proof fn infinite_doubles_are_zero(
    name: Seq<char>,
    bits: u64,
    tp: i32,
    instance: Seq<char>,
)
    requires
        name != "INSTANCE"@,
        (bits / 0x10_0000_0000_0000) % 0x800 == 0x7FF,
    ensures
        tp == 4 || tp == 5 ==> column_form(
            name,
            ValueView::Number(Number::Float(bits)),
            tp,
            instance,
        ) == ValueView::Number(Number::Float(0)),
{
}

/// An integer is what a value is, or what its text writes, where it has 64 bits and a
/// sign; nothing else is an integer.
pub proof fn integers_are_found_in_values(n: i64, u: u64, bits: u64, text: Seq<char>, i: int)
    ensures
        int64_of(
            ValueView::Number(
                if n < 0 {
                    Number::NegInt(n)
                } else {
                    Number::PosInt(n as u64)
                },
            ),
        ) == Some(n),
        int64_of(ValueView::Text(signed_decimal(n as int))) == Some(n),
        u > 0x7FFF_FFFF_FFFF_FFFF ==> int64_of(ValueView::Number(Number::PosInt(u))) is None,
        int64_of(ValueView::Number(Number::Float(bits))) is None,
        0 < i < text.len() && !('0' <= text[i] <= '9') ==> int64_of(ValueView::Text(text)) is None,
        int64_of(ValueView::Null) is None,
        int64_of(ValueView::Bool(true)) is None && int64_of(ValueView::Bool(false)) is None,
{
    signed_decimal_reads_back(n as int, i64::MIN as int, i64::MAX as int);
    if 0 < i < text.len() && !('0' <= text[i] <= '9') {
        other_characters_write_no_integer(text, true, i64::MIN as int, i64::MAX as int, i);
    }
}

/// What is stored for a column of integers is the integer, and for the column `INSTANCE`
/// the name of the instance, whatever its value and type.
pub proof fn processed_integers_stay(
    name: &str,
    value: &Value,
    column: &TableColumn,
    instance: &str,
    r: Value,
    n: i64,
)
    requires
        call_ensures(process_column_value, (name, value, column, instance), r),
        value@ == ValueView::Number(
            if n < 0 {
                Number::NegInt(n)
            } else {
                Number::PosInt(n as u64)
            },
        ),
    ensures
        name@ == "INSTANCE"@ ==> r@ == ValueView::Text(instance@),
        name@ != "INSTANCE"@ && (column.tp == 1 || column.tp == 2 || column.tp == 3 || column.tp == 8
            || column.tp == 9) ==> r@ == value@,
{
}

/// A column that has a name is called by it; the others are called by their place.
pub proof fn columns_are_called_by_name_or_place(
    column: &TableColumn,
    place: usize,
    name: String,
    r: String,
)
    requires
        call_ensures(get_column_name, (column, place), r),
    ensures
        column.name == Some(name) ==> r@ == name@,
        column.name is None ==> r@ == "col_"@ + decimal(place as nat),
{
}

/// An integer stays the integer it is when a number is asked for, and a double the double
/// it is when a double is asked for.
pub proof fn numbers_stay_what_they_are(
    integer: &Value,
    n: i64,
    double: &Value,
    bits: u64,
    number: Value,
    float: Value,
)
    requires
        n >= 0 ==> *integer == Value::Number(Number::PosInt(n as u64)),
        n < 0 ==> *integer == Value::Number(Number::NegInt(n)),
        *double == Value::Number(Number::Float(bits)),
        call_ensures(ensure_numeric_value, (integer,), number),
        call_ensures(ensure_float_value, (double,), float),
    ensures
        number@ == integer@,
        float@ == double@,
{
}

} // verus!
