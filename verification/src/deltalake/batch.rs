//! Batches of rows, and which columns make one.
use vstd::prelude::*;
use vstd::string::*;
use crate::deltalake::column::{Column, ColumnView};
use crate::deltalake::schema::{name_of_type, type_text, ArrowType, Field};
use crate::text::{append_decimal, decimal, has_part, has_suffix, parts_are_found};

verus! {

/// A batch of rows: the schema of its table, and a column for each field.
pub struct RecordBatch {
    pub fields: Vec<Field>,
    pub columns: Vec<Column>,
}

/// Why no batch was made.
#[derive(Debug, PartialEq)]
pub enum BatchError {
    /// There are no events
    NoEvents,
    /// The event that the schema is made from is no log event
    NotALogEvent,
    /// A timestamp cannot be cut down to a date
    NoDate,
    /// The schema has no fields
    NoColumns,
    /// The column of this name lacks a value in some row, and must not
    MissingValue(String),
    /// The column at this place holds values of another type than its field
    TypeMismatch {
        expected: ArrowType,
        found: ArrowType,
        index: usize,
    },
}

impl BatchError {
    /// The error as a message.
    pub open spec fn text(self) -> Seq<char> {
        match self {
            BatchError::NoEvents => "No events to convert"@,
            BatchError::NotALogEvent => "Event is not a log event"@,
            BatchError::NoDate => "Timestamp cannot be cut down to a date"@,
            BatchError::NoColumns =>
                "Invalid argument error: must either specify a row count or at least one column"@,
            BatchError::MissingValue(name) => "Invalid argument error: Column '"@ + name@
                + "' is declared as non-nullable but contains null values"@,
            BatchError::TypeMismatch { expected, found, index } =>
                "Invalid argument error: column types must match schema types, expected "@
                    + name_of_type(expected) + " but found "@ + name_of_type(found)
                    + " at column index "@ + decimal(index as nat),
        }
    }

    /// The error as a message.
    pub fn to_text(&self) -> (r: String)
        ensures
            r@ == self.text(),
    {
        match self {
            BatchError::NoEvents => "No events to convert".to_string(),
            BatchError::NotALogEvent => "Event is not a log event".to_string(),
            BatchError::NoDate => "Timestamp cannot be cut down to a date".to_string(),
            BatchError::NoColumns => {
                "Invalid argument error: must either specify a row count or at least one column".to_string()
            },
            BatchError::MissingValue(name) => "Invalid argument error: Column '".to_string().concat(
                name.as_str(),
            ).concat("' is declared as non-nullable but contains null values"),
            BatchError::TypeMismatch { expected, found, index } => {
                let mut out =
                    "Invalid argument error: column types must match schema types, expected ".to_string();
                out.append(type_text(expected));
                out.append(" but found ");
                out.append(type_text(found));
                out.append(" at column index ");
                append_decimal(&mut out, *index as u64);
                out
            },
        }
    }
}

/// Whether a cell is absent.
pub open spec fn some_absent<T>(cells: Seq<Option<T>>) -> bool {
    exists|k: int| 0 <= k < cells.len() && (#[trigger] cells[k]) is None
}

fn lacks_a_cell<T>(cells: &Vec<Option<T>>) -> (r: bool)
    ensures
        r == some_absent(cells@),
{
    let mut i: usize = 0;
    while i < cells.len()
        invariant
            i <= cells@.len(),
            forall|k: int| 0 <= k < i ==> (#[trigger] cells@[k]) is Some,
        decreases cells@.len() - i,
    {
        if cells[i].is_none() {
            assert(cells@[i as int] is None);
            return true;
        }
        i += 1;
    }
    false
}

impl ColumnView {
    /// The type of the values of the column.
    pub open spec fn data_type(self) -> ArrowType {
        match self {
            ColumnView::Text(_) => ArrowType::Utf8,
            ColumnView::Int64(_) => ArrowType::Int64,
            ColumnView::Int32(_) => ArrowType::Int32,
            ColumnView::Int16(_) => ArrowType::Int16,
            ColumnView::Int8(_) => ArrowType::Int8,
            ColumnView::UInt64(_) => ArrowType::UInt64,
            ColumnView::UInt32(_) => ArrowType::UInt32,
            ColumnView::Float64(_) => ArrowType::Float64,
            ColumnView::Boolean(_) => ArrowType::Boolean,
            ColumnView::Timestamp(_) => ArrowType::TimestampMicrosecond,
        }
    }

    /// The number of cells of the column.
    pub open spec fn cell_count(self) -> nat {
        match self {
            ColumnView::Text(cells) => cells.len(),
            ColumnView::Int64(cells) => cells.len(),
            ColumnView::Int32(cells) => cells.len(),
            ColumnView::Int16(cells) => cells.len(),
            ColumnView::Int8(cells) => cells.len(),
            ColumnView::UInt64(cells) => cells.len(),
            ColumnView::UInt32(cells) => cells.len(),
            ColumnView::Float64(cells) => cells.len(),
            ColumnView::Boolean(cells) => cells.len(),
            ColumnView::Timestamp(cells) => cells.len(),
        }
    }

    /// Whether a cell of the column is absent.
    pub open spec fn lacks_a_cell(self) -> bool {
        match self {
            ColumnView::Text(cells) => some_absent(cells),
            ColumnView::Int64(cells) => some_absent(cells),
            ColumnView::Int32(cells) => some_absent(cells),
            ColumnView::Int16(cells) => some_absent(cells),
            ColumnView::Int8(cells) => some_absent(cells),
            ColumnView::UInt64(cells) => some_absent(cells),
            ColumnView::UInt32(cells) => some_absent(cells),
            ColumnView::Float64(cells) => some_absent(cells),
            ColumnView::Boolean(cells) => some_absent(cells),
            ColumnView::Timestamp(cells) => some_absent(cells),
        }
    }
}

impl Column {
    /// The type of the values of the column.
    pub fn data_type(&self) -> (r: ArrowType)
        ensures
            r == self@.data_type(),
    {
        match self {
            Column::Text(_) => ArrowType::Utf8,
            Column::Int64(_) => ArrowType::Int64,
            Column::Int32(_) => ArrowType::Int32,
            Column::Int16(_) => ArrowType::Int16,
            Column::Int8(_) => ArrowType::Int8,
            Column::UInt64(_) => ArrowType::UInt64,
            Column::UInt32(_) => ArrowType::UInt32,
            Column::Float64(_) => ArrowType::Float64,
            Column::Boolean(_) => ArrowType::Boolean,
            Column::Timestamp(_) => ArrowType::TimestampMicrosecond,
        }
    }

    /// Whether a cell of the column is absent.
    pub fn lacks_a_cell(&self) -> (r: bool)
        ensures
            r == self@.lacks_a_cell(),
    {
        match self {
            Column::Text(cells) => {
                let r = lacks_a_cell(cells);
                proof {
                    let seen = self@->Text_0;
                    assert(forall|k: int|
                        0 <= k < seen.len() ==> ((#[trigger] seen[k]) is None) == (cells@[k] is None));
                    if some_absent(cells@) {
                        let k = choose|k: int| 0 <= k < cells@.len() && (#[trigger] cells@[k]) is None;
                        assert(seen[k] is None);
                    }
                }
                r
            },
            Column::Int64(cells) => lacks_a_cell(cells),
            Column::Int32(cells) => lacks_a_cell(cells),
            Column::Int16(cells) => lacks_a_cell(cells),
            Column::Int8(cells) => lacks_a_cell(cells),
            Column::UInt64(cells) => lacks_a_cell(cells),
            Column::UInt32(cells) => lacks_a_cell(cells),
            Column::Float64(cells) => {
                let r = lacks_a_cell(cells);
                proof {
                    let seen = self@->Float64_0;
                    assert(forall|k: int|
                        0 <= k < seen.len() ==> ((#[trigger] seen[k]) is None) == (cells@[k] is None));
                    if some_absent(cells@) {
                        let k = choose|k: int| 0 <= k < cells@.len() && (#[trigger] cells@[k]) is None;
                        assert(seen[k] is None);
                    }
                }
                r
            },
            Column::Boolean(cells) => lacks_a_cell(cells),
            Column::Timestamp(cells) => lacks_a_cell(cells),
        }
    }
}

/// Whether the column for a field lacks a value that it must not lack.
pub open spec fn misses_a_value(field: Field, column: ColumnView) -> bool {
    !field.nullable && column.lacks_a_cell()
}

/// Whether the column for a field holds values of the type of the field.
pub open spec fn keeps_type(field: Field, column: ColumnView) -> bool {
    column.data_type() == field.data_type
}

/// What the columns hold.
pub open spec fn column_views(columns: Seq<Column>) -> Seq<ColumnView> {
    columns.map_values(|c: Column| c@)
}

/// Whether no column lacks a value that it must not lack, among the first `n`.
pub open spec fn first_are_filled(fields: Seq<Field>, columns: Seq<ColumnView>, n: int) -> bool {
    forall|i: int| 0 <= i < n ==> !misses_a_value(#[trigger] fields[i], columns[i])
}

/// Whether every column has the type of its field, among the first `n`.
pub open spec fn first_keep_types(fields: Seq<Field>, columns: Seq<ColumnView>, n: int) -> bool {
    forall|i: int| 0 <= i < n ==> keeps_type(#[trigger] fields[i], columns[i])
}

/// What comes of columns for the fields of a schema: a batch of them, or an error
/// for the first column that lacks a value, or else for the first that has another
/// type than its field.
pub open spec fn is_made(
    r: Result<RecordBatch, BatchError>,
    fields: Seq<Field>,
    columns: Seq<ColumnView>,
) -> bool {
    let n = fields.len() as int;
    match r {
        Ok(batch) => {
            &&& n > 0
            &&& batch.fields@ == fields
            &&& column_views(batch.columns@) == columns
            &&& first_are_filled(fields, columns, n)
            &&& first_keep_types(fields, columns, n)
        },
        Err(BatchError::NoColumns) => n == 0,
        Err(BatchError::MissingValue(name)) => exists|i: int|
            0 <= i < n && name@ == (#[trigger] fields[i]).name@ && misses_a_value(
                fields[i],
                columns[i],
            ) && first_are_filled(fields, columns, i),
        Err(BatchError::TypeMismatch { expected, found, index }) => {
            &&& index < n
            &&& expected == fields[index as int].data_type
            &&& found == columns[index as int].data_type()
            &&& expected != found
            &&& first_are_filled(fields, columns, n)
            &&& first_keep_types(fields, columns, index as int)
        },
        Err(_) => false,
    }
}

impl RecordBatch {
    /// The batch of these columns. A text that stands for a double counts as a value
    /// whatever it holds.
    pub fn try_new(fields: Vec<Field>, columns: Vec<Column>) -> (r: Result<RecordBatch, BatchError>)
        requires
            fields@.len() == columns@.len(),
            forall|i: int, j: int|
                0 <= i < j < columns@.len() ==> (#[trigger] columns@[i])@.cell_count() == (
                #[trigger] columns@[j])@.cell_count(),
        ensures
            is_made(r, fields@, column_views(columns@)),
    {
        if columns.len() == 0 {
            return Err(BatchError::NoColumns);
        }
        let ghost views = column_views(columns@);
        let mut i: usize = 0;
        while i < columns.len()
            invariant
                i <= columns@.len(),
                fields@.len() == columns@.len(),
                views == column_views(columns@),
                first_are_filled(fields@, views, i as int),
            decreases columns@.len() - i,
        {
            if !fields[i].nullable && columns[i].lacks_a_cell() {
                assert(misses_a_value(fields@[i as int], views[i as int]));
                return Err(BatchError::MissingValue(fields[i].name.clone()));
            }
            i += 1;
        }
        let mut j: usize = 0;
        while j < columns.len()
            invariant
                j <= columns@.len(),
                fields@.len() == columns@.len(),
                views == column_views(columns@),
                first_are_filled(fields@, views, fields@.len() as int),
                first_keep_types(fields@, views, j as int),
            decreases columns@.len() - j,
        {
            let found = columns[j].data_type();
            if found != fields[j].data_type {
                return Err(
                    BatchError::TypeMismatch { expected: fields[j].data_type, found, index: j },
                );
            }
            j += 1;
        }
        Ok(RecordBatch { fields, columns })
    }
}

/// The message for a missing value names the column, and the one for columns of another
/// type names both types and the place of the column.
pub proof fn messages_name_the_column(
    name: String,
    expected: ArrowType,
    found: ArrowType,
    index: usize,
)
    ensures
        has_part(BatchError::MissingValue(name).text(), "'"@ + name@ + "'"@),
        has_part(
            BatchError::TypeMismatch { expected, found, index }.text(),
            name_of_type(expected) + " but found "@ + name_of_type(found),
        ),
        has_suffix(
            BatchError::TypeMismatch { expected, found, index }.text(),
            decimal(index as nat),
        ),
{
    reveal_strlit("'");
    reveal_strlit("Invalid argument error: Column '");
    reveal_strlit("' is declared as non-nullable but contains null values");
    let start = "Invalid argument error: Column '"@;
    let end = "' is declared as non-nullable but contains null values"@;
    let part = "'"@ + name@ + "'"@;
    let a = start.take(start.len() - 1);
    let b = end.skip(1);
    parts_are_found(a, part, b);
    assert(a + part + b =~= BatchError::MissingValue(name).text());
    let mismatch = BatchError::TypeMismatch { expected, found, index }.text();
    let first = "Invalid argument error: column types must match schema types, expected "@;
    let types = name_of_type(expected) + " but found "@ + name_of_type(found);
    let last = " at column index "@ + decimal(index as nat);
    parts_are_found(first, types, last);
    assert(first + types + last =~= mismatch);
    parts_are_found(first + types + " at column index "@, decimal(index as nat), Seq::empty());
    assert(first + types + " at column index "@ + decimal(index as nat) =~= mismatch);
}

/// Types of different kinds have different names.
pub proof fn types_have_names_of_their_own(one: ArrowType, other: ArrowType)
    requires
        name_of_type(one) == name_of_type(other),
    ensures
        one == other,
{
    reveal_strlit("Boolean");
    reveal_strlit("Int8");
    reveal_strlit("Int16");
    reveal_strlit("Int32");
    reveal_strlit("Int64");
    reveal_strlit("UInt32");
    reveal_strlit("UInt64");
    reveal_strlit("Float32");
    reveal_strlit("Float64");
    reveal_strlit("Utf8");
    reveal_strlit("LargeUtf8");
    reveal_strlit("Binary");
    reveal_strlit("LargeBinary");
    reveal_strlit("Timestamp(Microsecond, None)");
    reveal_strlit("Timestamp(Nanosecond, None)");
    reveal_strlit("Date32");
    reveal_strlit("Date64");
    reveal_strlit("Time64(Microsecond)");
    reveal_strlit("Null");
    let a = name_of_type(one);
    let b = name_of_type(other);
    assert(a.len() == b.len());
    assert(a[0] == b[0] && a[1] == b[1] && a[2] == b[2] && a[3] == b[3]);
    if a.len() > 4 {
        assert(a[4] == b[4]);
    }
    if a.len() > 5 {
        assert(a[5] == b[5]);
    }
}

/// Types are named in messages as they are named in memory.
pub proof fn types_are_named_so()
    ensures
        name_of_type(ArrowType::Boolean) == "Boolean"@,
        name_of_type(ArrowType::Int8) == "Int8"@,
        name_of_type(ArrowType::Int16) == "Int16"@,
        name_of_type(ArrowType::Int32) == "Int32"@,
        name_of_type(ArrowType::Int64) == "Int64"@,
        name_of_type(ArrowType::UInt32) == "UInt32"@,
        name_of_type(ArrowType::UInt64) == "UInt64"@,
        name_of_type(ArrowType::Float32) == "Float32"@,
        name_of_type(ArrowType::Float64) == "Float64"@,
        name_of_type(ArrowType::Utf8) == "Utf8"@,
        name_of_type(ArrowType::LargeUtf8) == "LargeUtf8"@,
        name_of_type(ArrowType::Binary) == "Binary"@,
        name_of_type(ArrowType::LargeBinary) == "LargeBinary"@,
        name_of_type(ArrowType::TimestampMicrosecond) == "Timestamp(Microsecond, None)"@,
        name_of_type(ArrowType::TimestampOther) == "Timestamp(Nanosecond, None)"@,
        name_of_type(ArrowType::Date32) == "Date32"@,
        name_of_type(ArrowType::Date64) == "Date64"@,
        name_of_type(ArrowType::Time64Microsecond) == "Time64(Microsecond)"@,
        name_of_type(ArrowType::Other) == "Null"@,
{
}

} // verus!
