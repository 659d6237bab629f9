//! The rows that the coprocessor sends in response to a request.
use vstd::prelude::*;
use vstd::string::*;
use crate::string_map::StringMap;
use crate::system_tables::config::TableConfig;
use crate::system_tables::coprocessor::codec::{
    decode_value_from_bytes_with_type, typed_value_at,
};
use crate::system_tables::coprocessor::columns::{
    column_form, column_label, get_column_name, process_column_value, TableColumn, TableSchema,
};
use crate::system_tables::data_collector::{CollectionError, CollectionErrorView};
use crate::text::{append_signed, signed_decimal};
use crate::value::{Value, ValueView};

verus! {

/// What a row holds under each name.
pub open spec fn row_model(row: Map<Seq<char>, Value>) -> Map<Seq<char>, ValueView> {
    row.map_values(|v: Value| v@)
}

/// What each of the rows holds.
pub open spec fn rows_model(rows: Seq<StringMap<Value>>) -> Seq<Map<Seq<char>, ValueView>> {
    rows.map_values(|row: StringMap<Value>| row_model(row@))
}

/// A row before any of its columns was read.
pub open spec fn blank_row(instance: Seq<char>) -> Map<Seq<char>, ValueView> {
    Map::empty().insert("INSTANCE"@, ValueView::Text(instance))
}

/// The row `row` with the columns from `index` on that can be read from `data` at
/// `at`, and the position behind them. Reading stops at the first column that
/// cannot be read, and at the end of the data.
pub open spec fn columns_read(
    data: Seq<u8>,
    at: int,
    columns: Seq<TableColumn>,
    index: int,
    row: Map<Seq<char>, ValueView>,
    instance: Seq<char>,
) -> (Map<Seq<char>, ValueView>, int)
    decreases columns.len() - index,
{
    if index >= columns.len() || at >= data.len() {
        (row, at)
    } else {
        match typed_value_at(data, at, columns[index].tp) {
            Ok((value, next)) => {
                let name = column_label(columns[index], index);
                columns_read(
                    data,
                    next,
                    columns,
                    index + 1,
                    row.insert(name, column_form(name, value, columns[index].tp, instance)),
                    instance,
                )
            },
            Err(_) => (row, at),
        }
    }
}

/// The row of `data` at `at`, and the position behind it.
pub open spec fn row_at(
    data: Seq<u8>,
    at: int,
    columns: Seq<TableColumn>,
    instance: Seq<char>,
) -> (Map<Seq<char>, ValueView>, int) {
    columns_read(data, at, columns, 0, blank_row(instance), instance)
}

/// The rows of `data` from `at` on. They end where no column of a row can be read.
pub open spec fn rows_from(
    data: Seq<u8>,
    at: int,
    columns: Seq<TableColumn>,
    instance: Seq<char>,
) -> Seq<Map<Seq<char>, ValueView>>
    decreases
            (if at < data.len() {
                data.len() - at
            } else {
                0
            }),
{
    if at >= data.len() {
        Seq::empty()
    } else {
        let (row, next) = row_at(data, at, columns, instance);
        if next <= at {
            Seq::empty()
        } else {
            seq![row] + rows_from(data, next, columns, instance)
        }
    }
}

proof fn lemma_row_insert(row: Map<Seq<char>, Value>, name: Seq<char>, value: Value)
    ensures
        row_model(row.insert(name, value)) == row_model(row).insert(name, value@),
{
    assert(row_model(row.insert(name, value)) =~= row_model(row).insert(name, value@));
}

/// The row of `data` at `offset`, and the position behind it.
fn read_row(data: &[u8], offset: usize, columns: &Vec<TableColumn>, instance: &str) -> (r: (
    StringMap<Value>,
    usize,
))
    requires
        offset <= data@.len(),
    ensures
        (row_model(r.0@), r.1 as int) == row_at(data@, offset as int, columns@, instance@),
        offset <= r.1 <= data@.len(),
{
    let mut row: StringMap<Value> = StringMap::new();
    let ghost name = "INSTANCE"@;
    let default_value = Value::Text(instance.to_string());
    proof {
        lemma_row_insert(row@, name, default_value);
        assert(row_model(row@) =~= Map::empty());
    }
    row.insert("INSTANCE".to_string(), default_value);
    let mut at: usize = offset;
    let mut index: usize = 0;
    let mut going: bool = true;
    while going && index < columns.len() && at < data.len()
        invariant
            index <= columns@.len(),
            offset <= at <= data@.len(),
            going ==> columns_read(
                data@,
                at as int,
                columns@,
                index as int,
                row_model(row@),
                instance@,
            ) == row_at(data@, offset as int, columns@, instance@),
            !going ==> (row_model(row@), at as int) == row_at(
                data@,
                offset as int,
                columns@,
                instance@,
            ),
        decreases if going { 1int } else { 0int }, columns@.len() - index,
    {
        let column = &columns[index];
        match decode_value_from_bytes_with_type(data, at, column.tp) {
            Ok((value, next)) => {
                let label = get_column_name(column, index);
                let kept = process_column_value(label.as_str(), &value, column, instance);
                proof {
                    lemma_row_insert(row@, label@, kept);
                }
                row.insert(label, kept);
                at = next;
                index += 1;
            },
            Err(_) => {
                going = false;
            },
        }
    }
    (row, at)
}

/// Parse row format data with explicit schema.
pub fn parse_row_format_with_schema(
    data: &[u8],
    table_schema: &TableSchema,
    instance: &str,
) -> (r: Vec<StringMap<Value>>)
    ensures
        rows_model(r@) == rows_from(data@, 0, table_schema.columns@, instance@),
{
    let mut rows: Vec<StringMap<Value>> = Vec::new();
    let mut offset: usize = 0;
    let mut going: bool = true;
    let ghost all = rows_from(data@, 0, table_schema.columns@, instance@);
    assert(rows_model(rows@) + all =~= all);
    while going && offset < data.len()
        invariant
            offset <= data@.len(),
            going ==> rows_model(rows@) + rows_from(
                data@,
                offset as int,
                table_schema.columns@,
                instance@,
            ) == all,
            !going ==> rows_model(rows@) == all,
        decreases if going { 1int } else { 0int }, data@.len() - offset,
    {
        let (row, next) = read_row(data, offset, &table_schema.columns, instance);
        if next <= offset {
            assert(rows_model(rows@) + Seq::empty() =~= rows_model(rows@));
            going = false;
        } else {
            let ghost before = rows_model(rows@);
            let ghost model = row_model(row@);
            rows.push(row);
            proof {
                let rest = rows_from(data@, next as int, table_schema.columns@, instance@);
                assert(rows_model(rows@) =~= before.push(model));
                assert(before.push(model) + rest =~= before + (seq![model] + rest));
            }
            offset = next;
        }
    }
    proof {
        if going {
            assert(rows_model(rows@) + Seq::empty() =~= rows_model(rows@));
        }
    }
    rows
}

/// Parse data with schema context. Every encoding is read in the row format.
pub fn parse_data_with_schema_and_encode_type(
    data: &[u8],
    table_schema: &TableSchema,
    encode_type: i32,
    instance: &str,
) -> (r: Vec<StringMap<Value>>)
    ensures
        rows_model(r@) == rows_from(data@, 0, table_schema.columns@, instance@),
{
    match encode_type {
        0 => parse_row_format_with_schema(data, table_schema, instance),
        1 => parse_row_format_with_schema(data, table_schema, instance),
        _ => parse_row_format_with_schema(data, table_schema, instance),
    }
}

/// An error that the cluster reports in place of rows.
pub struct SelectError {
    pub code: i32,
    pub msg: String,
}

/// A response with rows, in chunks.
pub struct SelectResponse {
    pub error: Option<SelectError>,
    /// The encoded rows of each chunk.
    pub chunks: Vec<Vec<u8>>,
    pub encode_type: i32,
}

/// The error that an execution error of the cluster is reported as.
pub open spec fn execution_error(table: TableConfig, error: SelectError) -> CollectionErrorView {
    CollectionErrorView::QueryError(
        "TiDB execution error for table "@ + table.source_schema@ + "."@ + table.source_table@
            + " ["@ + signed_decimal(error.code as int) + "]: "@ + error.msg@,
    )
}

/// Validate a response for errors.
pub fn validate_select_response(select_response: &SelectResponse, table: &TableConfig) -> (r:
    Result<(), CollectionError>)
    ensures
        match r {
            Ok(_) => select_response.error is None,
            Err(e) => select_response.error matches Some(error) && e@ == execution_error(
                *table,
                error,
            ),
        },
{
    match &select_response.error {
        None => Ok(()),
        Some(error) => {
            let mut message = "TiDB execution error for table ".to_string().concat(
                table.source_schema.as_str(),
            ).concat(".").concat(table.source_table.as_str()).concat(" [");
            append_signed(&mut message, error.code as i64);
            message.append("]: ");
            message.append(error.msg.as_str());
            Err(CollectionError::QueryError(message))
        },
    }
}

/// The rows of all chunks, one chunk after the other.
pub open spec fn chunk_rows(
    chunks: Seq<Vec<u8>>,
    columns: Seq<TableColumn>,
    instance: Seq<char>,
) -> Seq<Map<Seq<char>, ValueView>>
    decreases chunks.len(),
{
    if chunks.len() == 0 {
        Seq::empty()
    } else {
        chunk_rows(chunks.drop_last(), columns, instance) + rows_from(
            chunks.last()@,
            0,
            columns,
            instance,
        )
    }
}

/// Process all chunks of a response.
pub fn process_response_chunks(
    select_response: &SelectResponse,
    table_schema: &TableSchema,
    instance: &str,
) -> (r: Vec<StringMap<Value>>)
    ensures
        rows_model(r@) == chunk_rows(select_response.chunks@, table_schema.columns@, instance@),
{
    let mut all_rows: Vec<StringMap<Value>> = Vec::new();
    let mut i: usize = 0;
    let ghost chunks = select_response.chunks@;
    assert(rows_model(all_rows@) =~= chunk_rows(chunks.take(0), table_schema.columns@, instance@));
    while i < select_response.chunks.len()
        invariant
            chunks == select_response.chunks@,
            i <= chunks.len(),
            rows_model(all_rows@) == chunk_rows(
                chunks.take(i as int),
                table_schema.columns@,
                instance@,
            ),
        decreases chunks.len() - i,
    {
        let ghost before = rows_model(all_rows@);
        let ghost upto = chunks.take(i + 1);
        proof {
            assert(upto.drop_last() =~= chunks.take(i as int));
            assert(upto.last() == chunks[i as int]);
        }
        if select_response.chunks[i].len() > 0 {
            let mut rows = parse_data_with_schema_and_encode_type(
                select_response.chunks[i].as_slice(),
                table_schema,
                select_response.encode_type,
                instance,
            );
            let ghost added = rows@;
            let ghost had = all_rows@;
            all_rows.append(&mut rows);
            assert(rows_model(had + added) =~= rows_model(had) + rows_model(added));
        } else {
            assert(before + Seq::empty() =~= before);
        }
        i += 1;
    }
    assert(chunks.take(i as int) =~= chunks);
    all_rows
}

/// Whether the row names its instance.
pub open spec fn names_instance(row: Map<Seq<char>, ValueView>, instance: Seq<char>) -> bool {
    row.dom().contains("INSTANCE"@) && row["INSTANCE"@] == ValueView::Text(instance)
}

proof fn lemma_columns_name_instance(
    data: Seq<u8>,
    at: int,
    columns: Seq<TableColumn>,
    index: int,
    row: Map<Seq<char>, ValueView>,
    instance: Seq<char>,
)
    requires
        names_instance(row, instance),
    ensures
        names_instance(columns_read(data, at, columns, index, row, instance).0, instance),
    decreases columns.len() - index,
{
    if index < columns.len() && at < data.len() {
        if let Ok((value, next)) = typed_value_at(data, at, columns[index].tp) {
            let name = column_label(columns[index], index);
            let after = row.insert(name, column_form(name, value, columns[index].tp, instance));
            lemma_columns_name_instance(data, next, columns, index + 1, after, instance);
        }
    }
}

/// Every row names the configured instance, whatever the data holds, a column of
/// that name among it.
pub proof fn every_row_names_its_instance(
    data: Seq<u8>,
    at: int,
    columns: Seq<TableColumn>,
    instance: Seq<char>,
    i: int,
)
    requires
        0 <= i < rows_from(data, at, columns, instance).len(),
    ensures
        names_instance(rows_from(data, at, columns, instance)[i], instance),
    decreases i,
{
    lemma_columns_name_instance(data, at, columns, 0, blank_row(instance), instance);
    if i > 0 {
        let next = row_at(data, at, columns, instance).1;
        every_row_names_its_instance(data, next, columns, instance, i - 1);
    }
}

/// Reading ends: there are no more rows than bytes.
pub proof fn rows_are_no_more_than_bytes(
    data: Seq<u8>,
    at: int,
    columns: Seq<TableColumn>,
    instance: Seq<char>,
)
    requires
        0 <= at <= data.len(),
    ensures
        rows_from(data, at, columns, instance).len() <= data.len() - at,
    decreases data.len() - at,
{
    if at < data.len() {
        let next = row_at(data, at, columns, instance).1;
        if at < next < data.len() {
            rows_are_no_more_than_bytes(data, next, columns, instance);
        } else if next >= data.len() {
            assert(rows_from(data, next, columns, instance).len() == 0);
        }
    }
}

/// An error that the cluster reports in place of rows is told with the table, its code
/// and its message.
pub proof fn execution_errors_are_told(table: TableConfig, error: SelectError)
    ensures
        execution_error(table, error) == CollectionErrorView::QueryError(
            "TiDB execution error for table "@ + (table.source_schema@ + "."@ + table.source_table@)
                + (" ["@ + signed_decimal(error.code as int) + "]: "@ + error.msg@),
        ),
{
    let told = execution_error(table, error)->QueryError_0;
    assert(told =~= "TiDB execution error for table "@ + (table.source_schema@ + "."@
        + table.source_table@) + (" ["@ + signed_decimal(error.code as int) + "]: "@ + error.msg@));
}

} // verus!
