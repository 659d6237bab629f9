//! Collection of table data through the coprocessor interface.
//!
//! The collector decides what is asked of the instance, and what the answers
//! mean. Connections are made, and requests are sent, elsewhere.
use vstd::prelude::*;
use vstd::string::*;
use crate::clock::Timestamp;
use crate::string_map::{
    distinct_keys, lemma_stored, lemma_stored_mapped, map_of, mapped, stored, StringMap,
};
use crate::system_tables::config::TableConfig;
use crate::system_tables::coprocessor::columns::{
    mysql_type_to_string, sql_type_name, TableColumn, TableSchema,
};
use crate::system_tables::coprocessor::request::{build_dag_request, DagRequest};
use crate::system_tables::coprocessor::rows::{
    chunk_rows, execution_error, process_response_chunks, rows_model, validate_select_response,
    SelectResponse,
};
use crate::system_tables::data_collector::{
    configuration_error, CollectionError, CollectionErrorView, CollectionMetadata, CollectionMethod,
    CollectionResult, CollectorConfig, CollectorConfigType,
};
use crate::text::{
    append_decimal, contains, decimal, found_parts_are_there, has_part, has_prefix,
    parts_are_found, starts_with,
};
use crate::value::{named_item, Number, Value, ValueView};

verus! {

/// The address of the status port of the instance with this host and database
/// port.
pub open spec fn endpoint_text(host: Seq<char>, port: int) -> Seq<char> {
    "http://"@ + host + ":"@ + decimal((port + 6080) as nat)
}

fn endpoint(host: &str, port: u16) -> (r: String)
    requires
        port <= 59455,
    ensures
        r@ == endpoint_text(host@, port as int),
{
    let status_port: u16 = if port == 4000 { 10080 } else { port + 6080 };
    let mut text = "http://".to_string().concat(host).concat(":");
    append_decimal(&mut text, status_port as u64);
    text
}

/// The integer under `name` in a document, or `default`.
pub open spec fn integer_field(doc: ValueView, name: Seq<char>, default: i64) -> i64 {
    match doc.field(name) {
        Some(v) => match v.signed() {
            Some(n) => n,
            None => default,
        },
        None => default,
    }
}

/// The name that a column has in a schema document.
pub open spec fn document_name(col: ValueView) -> Option<Seq<char>> {
    match col.field("name"@) {
        Some(name) => match name.field("O"@) {
            Some(v) => v.text(),
            None => None,
        },
        None => None,
    }
}

/// The type that a column has in a schema document.
pub open spec fn document_type(col: ValueView) -> i32 {
    match col.field("type"@) {
        Some(tp) => integer_field(tp, "Tp"@, 15) as i32,
        None => 15,
    }
}

/// Whether `column` is the column that `col` describes.
pub open spec fn describes_column(col: ValueView, column: TableColumn) -> bool {
    &&& column.id == integer_field(col, "id"@, 0)
    &&& column.tp == document_type(col)
    &&& match column.name {
        Some(name) => document_name(col) == Some(name@),
        None => document_name(col) is None,
    }
}

/// The columns that a schema document lists.
pub open spec fn document_columns(doc: ValueView) -> Seq<ValueView> {
    match doc.field("cols"@) {
        Some(ValueView::Array(cols)) => cols,
        _ => Seq::empty(),
    }
}

/// Whether `schema` is the schema that the document describes.
pub open spec fn describes(doc: ValueView, schema: TableSchema) -> bool {
    let cols = document_columns(doc);
    &&& schema.id == integer_field(doc, "id"@, 0)
    &&& schema.columns@.len() == cols.len()
    &&& forall|i: int|
        0 <= i < cols.len() ==> describes_column(#[trigger] cols[i], schema.columns@[i])
}

fn read_integer(doc: &Value, name: &str, default: i64) -> (r: i64)
    ensures
        r == integer_field(doc@, name@, default),
{
    match doc.field(name) {
        Some(v) => match v.as_i64() {
            Some(n) => n,
            None => default,
        },
        None => default,
    }
}

fn read_column(col: &Value) -> (r: TableColumn)
    ensures
        describes_column(col@, r),
{
    let name = match col.field("name") {
        Some(names) => match names.field("O") {
            Some(Value::Text(s)) => Some(s.clone()),
            _ => None,
        },
        None => None,
    };
    let tp: i32 = match col.field("type") {
        Some(tp) => read_integer(tp, "Tp", 15) as i32,
        None => 15,
    };
    TableColumn { id: read_integer(col, "id", 0), tp, name }
}

/// The schema that a schema document describes.
pub fn parse_table_schema(schema_json: &Value) -> (r: TableSchema)
    ensures
        describes(schema_json@, r),
{
    let mut columns: Vec<TableColumn> = Vec::new();
    if let Some(Value::Array(cols)) = schema_json.field("cols") {
        let ghost views = document_columns(schema_json@);
        proof {
            reveal_with_fuel(Value::model, 2);
            assert(views.len() == cols@.len());
        }
        let mut i: usize = 0;
        while i < cols.len()
            invariant
                i <= cols@.len(),
                views.len() == cols@.len(),
                forall|k: int| 0 <= k < cols@.len() ==> #[trigger] views[k] == cols@[k]@,
                columns@.len() == i,
                forall|k: int| 0 <= k < i ==> describes_column(#[trigger] views[k], columns@[k]),
            decreases cols@.len() - i,
        {
            columns.push(read_column(&cols[i]));
            i += 1;
        }
    }
    TableSchema { id: read_integer(schema_json, "id", 0), columns }
}

/// The type description of a column for the writer of the data.
pub open spec fn type_document(tp: i32) -> ValueView {
    ValueView::Object(seq![("mysql_type"@, ValueView::Text(sql_type_name(tp)))])
}

/// The type descriptions of the columns that have a name, by name.
pub open spec fn schema_document(columns: Seq<TableColumn>) -> Seq<(Seq<char>, ValueView)>
    decreases columns.len(),
{
    if columns.len() == 0 {
        Seq::empty()
    } else {
        let before = schema_document(columns.drop_last());
        match columns.last().name {
            Some(name) => stored(before, name@, type_document(columns.last().tp)),
            None => before,
        }
    }
}

/// Coprocessor-based data collector.
pub struct CoprocessorCollector {
    pub config: CollectorConfig,
    pub grpc_endpoint: String,
    /// Whether there is a connection to the instance.
    pub connected: bool,
    pub cached_schemas: StringMap<TableSchema>,
}

/// How the rows of a table are to be got.
pub enum CollectionStep {
    /// By a request with this plan
    Request(DagRequest),
    /// Not at all: there are no rows
    Fallback,
}

/// What is needed to read a response.
pub enum ResponseStep {
    /// Nothing: there are no rows
    NoRows,
    /// The response as it is, with this schema
    Decode(TableSchema),
    /// A schema that is not known yet
    FetchSchema,
}

/// The name under which the schema of a table is remembered.
pub open spec fn cache_key(table: TableConfig) -> Seq<char> {
    table.source_schema@ + "."@ + table.source_table@
}

fn cache_key_of(table: &TableConfig) -> (r: String)
    ensures
        r@ == cache_key(*table),
{
    table.source_schema.clone().concat(".").concat(table.source_table.as_str())
}

/// The schema by which a request is made: the fetched one, or one without columns
/// where it could not be fetched.
pub fn schema_or_fallback(fetched: Result<TableSchema, CollectionError>) -> (r: TableSchema)
    ensures
        match fetched {
            Ok(schema) => r == schema,
            Err(_) => r.id == 0 && r.columns@.len() == 0,
        },
{
    match fetched {
        Ok(schema) => schema,
        Err(_) => TableSchema { id: 0, columns: Vec::new() },
    }
}

/// How the rows of a table with this schema are to be got: by a request where
/// columns are known.
pub fn collection_step(table_schema: &TableSchema) -> (r: CollectionStep)
    ensures
        match r {
            CollectionStep::Request(dag) => table_schema.columns@.len() > 0 && dag.scans(
                *table_schema,
            ) && dag.has_standard_settings(),
            CollectionStep::Fallback => table_schema.columns@.len() == 0,
        },
{
    match build_dag_request(table_schema) {
        Ok(dag) => CollectionStep::Request(dag),
        Err(_) => CollectionStep::Fallback,
    }
}

/// The rows of a table that were not got by a request: none.
pub fn fallback_to_http_collection() -> (r: Vec<StringMap<Value>>)
    ensures
        r@.len() == 0,
{
    Vec::new()
}

/// The rows of a table, and whether the fallback supplied them: those that a request
/// brought, or those of the fallback where none did.
pub fn rows_or_fallback(rows: Option<Vec<StringMap<Value>>>) -> (r: (Vec<StringMap<Value>>, bool))
    ensures
        match rows {
            Some(brought) => r.0 == brought && !r.1,
            None => r.0@.len() == 0 && r.1,
        },
{
    match rows {
        Some(brought) => (brought, false),
        None => (fallback_to_http_collection(), true),
    }
}

impl CoprocessorCollector {
    /// Whether the collector was made for this configuration.
    pub open spec fn made_for(self, config: CollectorConfig) -> bool {
        &&& self.config == config
        &&& config.config_type matches CollectorConfigType::Coprocessor { host, port }
            && self.grpc_endpoint@ == endpoint_text(host@, port as int)
        &&& !self.connected
        &&& self.cached_schemas.items().len() == 0
    }

    /// The id and the columns that are remembered for a table.
    pub open spec fn known_schema(self, table: TableConfig) -> Option<(i64, Seq<TableColumn>)> {
        if self.cached_schemas@.dom().contains(cache_key(table)) {
            let schema = self.cached_schemas@[cache_key(table)];
            Some((schema.id, schema.columns@))
        } else {
            None
        }
    }

    /// Create a new coprocessor collector.
    pub fn new(config: CollectorConfig) -> (r: Result<Self, CollectionError>)
        requires
            config.has_status_port(),
        ensures
            match r {
                Ok(collector) => collector.made_for(config),
                Err(e) => !(config.config_type is Coprocessor) && e@
                    == CollectionErrorView::ConfigurationError(
                    "Invalid config type for CoprocessorCollector"@,
                ),
            },
    {
        match &config.config_type {
            CollectorConfigType::Coprocessor { host, port } => {
                let grpc_endpoint = endpoint(host.as_str(), *port);
                Ok(
                    CoprocessorCollector {
                        config,
                        grpc_endpoint,
                        connected: false,
                        cached_schemas: StringMap::new(),
                    },
                )
            },
            _ => Err(configuration_error("Invalid config type for CoprocessorCollector")),
        }
    }

    /// Where the schema document of a table is found.
    pub fn schema_url(&self, table: &TableConfig) -> (r: Result<String, CollectionError>)
        requires
            self.config.has_status_port(),
        ensures
            match r {
                Ok(url) => self.config.config_type matches CollectorConfigType::Coprocessor {
                    host,
                    port,
                } && url@ == endpoint_text(host@, port as int) + "/schema/"@ + table.source_schema@
                    + "/"@ + table.source_table@,
                Err(e) => !(self.config.config_type is Coprocessor) && e@
                    == CollectionErrorView::ConfigurationError(
                    "Invalid config type for coprocessor table schema fetch"@,
                ),
            },
    {
        match &self.config.config_type {
            CollectorConfigType::Coprocessor { host, port } => Ok(
                endpoint(host.as_str(), *port).concat("/schema/").concat(
                    table.source_schema.as_str(),
                ).concat("/").concat(table.source_table.as_str()),
            ),
            _ => Err(configuration_error("Invalid config type for coprocessor table schema fetch")),
        }
    }

    /// The collection method of this collector.
    pub fn collection_method(&self) -> (r: CollectionMethod)
        ensures
            r == CollectionMethod::Coprocessor,
    {
        CollectionMethod::Coprocessor
    }

    /// Whether the coprocessor can read a table: a cluster table, or one of the
    /// statement summaries or of slow queries.
    pub open spec fn can_collect(table: TableConfig) -> bool {
        ||| has_prefix(table.source_table@, "CLUSTER_"@)
        ||| has_part(table.source_table@, "STATEMENTS_SUMMARY"@)
        ||| has_part(table.source_table@, "SLOW_QUERY"@)
    }

    /// Whether the coprocessor can read the table.
    pub fn can_collect_table(&self, table: &TableConfig) -> (r: bool)
        ensures
            r == Self::can_collect(*table),
    {
        starts_with(table.source_table.as_str(), "CLUSTER_") || contains(
            table.source_table.as_str(),
            "STATEMENTS_SUMMARY",
        ) || contains(table.source_table.as_str(), "SLOW_QUERY")
    }

    /// Notes that there is a connection to the instance.
    pub fn initialize(&mut self)
        ensures
            final(self).connected,
            final(self).config == old(self).config,
            final(self).grpc_endpoint == old(self).grpc_endpoint,
            final(self).cached_schemas == old(self).cached_schemas,
    {
        self.connected = true;
    }

    /// Whether rows can be asked for.
    pub fn health_check(&self) -> (r: Result<(), CollectionError>)
        ensures
            match r {
                Ok(_) => self.connected,
                Err(e) => !self.connected && e@ == CollectionErrorView::ConfigurationError(
                    "gRPC channel not initialized"@,
                ),
            },
    {
        if self.connected {
            Ok(())
        } else {
            Err(configuration_error("gRPC channel not initialized"))
        }
    }

    /// How the rows of a table are to be got after a request for them failed: by the
    /// fallback.
    pub fn request_failed(&self) -> (r: CollectionStep)
        ensures
            r is Fallback,
    {
        CollectionStep::Fallback
    }

    /// What is needed to read a response with this error message and this data.
    pub fn response_step(&self, other_error: &str, data: &[u8], table: &TableConfig) -> (r: Result<
        ResponseStep,
        CollectionError,
    >)
        ensures
            match r {
                Err(e) => other_error@.len() > 0 && e@ == CollectionErrorView::QueryError(
                    "Coprocessor error: "@ + other_error@,
                ),
                Ok(step) => other_error@.len() == 0 && match step {
                    ResponseStep::NoRows => data@.len() == 0,
                    ResponseStep::Decode(schema) => data@.len() > 0 && self.known_schema(*table)
                        == Some((schema.id, schema.columns@)),
                    ResponseStep::FetchSchema => data@.len() > 0 && self.known_schema(
                        *table,
                    ) is None,
                },
            },
    {
        if crate::text::chars_of(other_error).len() > 0 {
            return Err(
                CollectionError::QueryError("Coprocessor error: ".to_string().concat(other_error)),
            );
        }
        if data.len() == 0 {
            return Ok(ResponseStep::NoRows);
        }
        match self.cached_schemas.get(cache_key_of(table).as_str()) {
            Some(schema) => Ok(ResponseStep::Decode(schema.clone())),
            None => Ok(ResponseStep::FetchSchema),
        }
    }

    /// Remembers the fetched schema of a table, where it has columns.
    pub fn cache_table_schema(&mut self, table: &TableConfig, schema: TableSchema) -> (r: Result<
        TableSchema,
        CollectionError,
    >)
        ensures
            final(self).config == old(self).config,
            final(self).grpc_endpoint == old(self).grpc_endpoint,
            final(self).connected == old(self).connected,
            match r {
                Ok(same_schema) => schema.columns@.len() > 0 && same_schema == schema && forall|
                    other: TableConfig,
                | #[trigger]
                    final(self).known_schema(other) == if cache_key(other) == cache_key(*table) {
                        Some((schema.id, schema.columns@))
                    } else {
                        old(self).known_schema(other)
                    },
                Err(e) => schema.columns@.len() == 0 && final(self).cached_schemas == old(
                    self,
                ).cached_schemas && e@ == CollectionErrorView::ConfigurationError(
                    "Retrieved schema for table "@ + cache_key(*table) + " has no columns"@,
                ),
            },
    {
        let key = cache_key_of(table);
        if schema.columns.len() == 0 {
            return Err(
                CollectionError::ConfigurationError(
                    "Retrieved schema for table ".to_string().concat(key.as_str()).concat(
                        " has no columns",
                    ),
                ),
            );
        }
        self.cached_schemas.insert(key, schema.clone());
        Ok(schema)
    }

    /// The rows of a response.
    pub fn parse_coprocessor_response(
        &self,
        select_response: &SelectResponse,
        table: &TableConfig,
        table_schema: &TableSchema,
    ) -> (r: Result<Vec<StringMap<Value>>, CollectionError>)
        ensures
            match r {
                Ok(rows) => select_response.error is None && rows_model(rows@) == chunk_rows(
                    select_response.chunks@,
                    table_schema.columns@,
                    self.config.instance@,
                ),
                Err(e) => select_response.error matches Some(error) && e@ == execution_error(
                    *table,
                    error,
                ),
            },
    {
        match validate_select_response(select_response, table) {
            Err(e) => Err(e),
            Ok(_) => Ok(
                process_response_chunks(
                    select_response,
                    table_schema,
                    self.config.instance.as_str(),
                ),
            ),
        }
    }
}

fn type_value(tp: i32) -> (r: Value)
    ensures
        r@ == type_document(tp),
{
    let mut parts: Vec<(String, Value)> = Vec::new();
    parts.push(("mysql_type".to_string(), Value::Text(mysql_type_to_string(tp))));
    let r = Value::Object(parts);
    proof {
        reveal_with_fuel(Value::model, 2);
        assert(r@->Object_0 =~= type_document(tp)->Object_0);
    }
    r
}

/// The type descriptions of the columns that have a name, as a document.
pub fn schema_metadata(columns: &Vec<TableColumn>) -> (r: Value)
    ensures
        r@ == ValueView::Object(schema_document(columns@)),
{
    let mut by_name: StringMap<Value> = StringMap::new();
    let ghost model = |v: Value| v@;
    let mut i: usize = 0;
    assert(mapped(by_name.items(), model) =~= schema_document(columns@.take(0)));
    while i < columns.len()
        invariant
            i <= columns@.len(),
            model == (|v: Value| v@),
            mapped(by_name.items(), model) == schema_document(columns@.take(i as int)),
        decreases columns@.len() - i,
    {
        let ghost upto = columns@.take(i + 1);
        assert(upto.drop_last() =~= columns@.take(i as int));
        if let Some(name) = &columns[i].name {
            let value = type_value(columns[i].tp);
            let size: usize = by_name.len();
            proof {
                lemma_stored_mapped(by_name.items(), name@, value, model);
            }
            by_name.insert(name.clone(), value);
        }
        i += 1;
    }
    assert(columns@.take(i as int) =~= columns@);
    let ghost items = by_name.items();
    let entries = by_name.into_entries();
    let ghost pairs = entries@;
    let r = Value::Object(entries);
    proof {
        reveal_with_fuel(Value::model, 2);
        assert forall|k: int| 0 <= k < pairs.len() implies r@->Object_0[k] == mapped(
            items,
            model,
        )[k] by {
            assert(items[k] == pairs.map_values(|e: (String, Value)| (e.0@, e.1))[k]);
        }
        assert(r@->Object_0 =~= mapped(items, model));
    }
    r
}

/// Whether `extra` is the additional metadata for rows that were read by `schema`
/// from the instance at `endpoint`, or that the fallback supplied.
pub open spec fn tells_schema(
    extra: Map<Seq<char>, Value>,
    schema: TableSchema,
    endpoint: Seq<char>,
    fallback_used: bool,
) -> bool {
    &&& extra.dom() == set![
        "schema_columns"@,
        "grpc_endpoint"@,
        "fallback_used"@,
        "schema_metadata"@,
    ]
    &&& extra["schema_columns"@]@ == ValueView::Number(
        Number::PosInt(schema.columns@.len() as u64),
    )
    &&& extra["grpc_endpoint"@]@ == ValueView::Text(endpoint)
    &&& extra["fallback_used"@]@ == ValueView::Bool(fallback_used)
    &&& extra["schema_metadata"@]@ == ValueView::Object(schema_document(schema.columns@))
}

impl CoprocessorCollector {
    /// The result of a collection. `fallback_used` tells whether the fallback supplied
    /// the rows.
    pub fn collection_result(
        &self,
        table: &TableConfig,
        table_schema: &TableSchema,
        data: Vec<StringMap<Value>>,
        fallback_used: bool,
        timestamp: Timestamp,
        duration_ms: u64,
    ) -> (r: CollectionResult)
        ensures
            r.data == data,
            r.metadata.instance@ == self.config.instance@,
            r.metadata.table_config == *table,
            r.metadata.collection_method == CollectionMethod::Coprocessor,
            r.metadata.timestamp == timestamp,
            r.metadata.row_count == data@.len(),
            r.metadata.duration_ms == duration_ms,
            tells_schema(r.metadata.extra@, *table_schema, self.grpc_endpoint@, fallback_used),
    {
        let mut extra: StringMap<Value> = StringMap::new();
        extra.insert(
            "schema_columns".to_string(),
            Value::Number(Number::PosInt(table_schema.columns.len() as u64)),
        );
        extra.insert("grpc_endpoint".to_string(), Value::Text(self.grpc_endpoint.clone()));
        extra.insert("fallback_used".to_string(), Value::Bool(fallback_used));
        extra.insert("schema_metadata".to_string(), schema_metadata(&table_schema.columns));
        proof {
            reveal_strlit("schema_columns");
            reveal_strlit("grpc_endpoint");
            reveal_strlit("fallback_used");
            reveal_strlit("schema_metadata");
            assert("schema_metadata"@.len() != "schema_columns"@.len());
            assert("grpc_endpoint"@[0] != "fallback_used"@[0]);
            assert(extra@.dom() =~= set![
                "schema_columns"@,
                "grpc_endpoint"@,
                "fallback_used"@,
                "schema_metadata"@,
            ]);
        }
        let row_count: usize = data.len();
        CollectionResult {
            data,
            metadata: CollectionMetadata {
                instance: self.config.instance.clone(),
                table_config: table.clone(),
                collection_method: CollectionMethod::Coprocessor,
                timestamp,
                row_count,
                duration_ms,
                extra,
            },
        }
    }
}

/// The status port of an instance is 6080 above its database port: 10080 for the port
/// 4000.
pub proof fn status_port_is_above_the_database_port(host: Seq<char>, port: int)
    requires
        0 <= port,
    ensures
        endpoint_text(host, port) == "http://"@ + host + ":"@ + decimal((port + 6080) as nat),
        endpoint_text(host, 4000) == "http://"@ + host + ":"@ + decimal(10080),
{
}

/// The coprocessor reads every table whose name begins with `CLUSTER_`, and every table
/// of statement summaries or slow queries, whatever stands around that in its name.
pub proof fn these_tables_can_be_read(table: TableConfig, start: Seq<char>, end: Seq<char>)
    ensures
        table.source_table@ == "CLUSTER_"@ + end ==> CoprocessorCollector::can_collect(table),
        table.source_table@ == start + "STATEMENTS_SUMMARY"@ + end
            ==> CoprocessorCollector::can_collect(table),
        table.source_table@ == start + "SLOW_QUERY"@ + end ==> CoprocessorCollector::can_collect(
            table,
        ),
{
    parts_are_found(start, "CLUSTER_"@, end);
    parts_are_found(start, "STATEMENTS_SUMMARY"@, end);
    parts_are_found(start, "SLOW_QUERY"@, end);
}

/// No other table can be read: the name of one that can begins with `CLUSTER_`, or holds
/// one of the two other names.
pub proof fn no_other_table_can_be_read(table: TableConfig)
    requires
        CoprocessorCollector::can_collect(table),
    ensures
        ({
            ||| exists|end: Seq<char>| table.source_table@ == #[trigger] ("CLUSTER_"@ + end)
            ||| exists|start: Seq<char>, end: Seq<char>|
                table.source_table@ == #[trigger] (start + "STATEMENTS_SUMMARY"@ + end)
            ||| exists|start: Seq<char>, end: Seq<char>|
                table.source_table@ == #[trigger] (start + "SLOW_QUERY"@ + end)
        }),
{
    let name = table.source_table@;
    if has_prefix(name, "CLUSTER_"@) {
        let (a, b) = found_parts_are_there(name, "CLUSTER_"@);
        let end = name.skip("CLUSTER_"@.len() as int);
        assert(name == "CLUSTER_"@ + end);
    } else if has_part(name, "STATEMENTS_SUMMARY"@) {
        let (a, b) = found_parts_are_there(name, "STATEMENTS_SUMMARY"@);
        assert(name == a + "STATEMENTS_SUMMARY"@ + b);
    } else {
        let (a, b) = found_parts_are_there(name, "SLOW_QUERY"@);
        assert(name == a + "SLOW_QUERY"@ + b);
    }
}

/// The document by which an instance describes a column.
pub open spec fn column_document(id: i64, name: Seq<char>, tp: i32) -> ValueView {
    ValueView::Object(
        seq![
            ("id"@, signed_document(id)),
            ("name"@, ValueView::Object(seq![("O"@, ValueView::Text(name))])),
            ("type"@, ValueView::Object(seq![("Tp"@, signed_document(tp as i64))])),
        ],
    )
}

/// A signed integer in a document.
pub open spec fn signed_document(n: i64) -> ValueView {
    if n < 0 {
        ValueView::Number(Number::NegInt(n))
    } else {
        ValueView::Number(Number::PosInt(n as u64))
    }
}

proof fn lemma_fields_of_two(a: (Seq<char>, ValueView), b: (Seq<char>, ValueView))
    requires
        a.0 != b.0,
    ensures
        ValueView::Object(seq![a, b]).field(a.0) == Some(a.1),
        ValueView::Object(seq![a, b]).field(b.0) == Some(b.1),
{
    let items = seq![a, b];
    assert(items.skip(1) =~= seq![b]);
    assert(items[0] == a);
    assert(seq![b][0] == b);
    reveal_with_fuel(named_item, 3);
}

proof fn lemma_column_document(id: i64, name: Seq<char>, tp: i32, column: TableColumn)
    requires
        describes_column(column_document(id, name, tp), column),
    ensures
        column.id == id,
        column.tp == tp,
        column.name matches Some(n) && n@ == name,
{
    reveal_strlit("id");
    reveal_strlit("name");
    reveal_strlit("type");
    reveal_strlit("O");
    reveal_strlit("Tp");
    assert("id"@.len() == 2 && "name"@.len() == 4 && "type"@.len() == 4);
    assert("name"@[0] != "type"@[0]);
    reveal_with_fuel(named_item, 4);
    let items = column_document(id, name, tp)->Object_0;
    assert(items.skip(1)[0] == items[1]);
    assert(items.skip(1).skip(1)[0] == items[2]);
    let names = seq![("O"@, ValueView::Text(name))];
    assert(names[0].1 == ValueView::Text(name));
    let types = seq![("Tp"@, signed_document(tp as i64))];
    assert(types[0].1 == signed_document(tp as i64));
    assert(column_document(id, name, tp).field("name"@) == Some(ValueView::Object(names)));
    assert(column_document(id, name, tp).field("type"@) == Some(ValueView::Object(types)));
    assert(ValueView::Object(names).field("O"@) == Some(ValueView::Text(name)));
    assert(ValueView::Object(types).field("Tp"@) == Some(signed_document(tp as i64)));
}

/// The schema of a table reads back from the document that describes it: the id of the
/// table, and of each column, in order, the id, the name and the type.
pub proof fn schema_documents_read_back(
    id: i64,
    cols: Seq<ValueView>,
    schema: TableSchema,
    i: int,
    column_id: i64,
    name: Seq<char>,
    tp: i32,
)
    requires
        describes(
            ValueView::Object(seq![("id"@, signed_document(id)), ("cols"@, ValueView::Array(cols))]),
            schema,
        ),
        0 <= i < cols.len(),
        cols[i] == column_document(column_id, name, tp),
    ensures
        schema.id == id,
        schema.columns@.len() == cols.len(),
        schema.columns@[i].id == column_id,
        schema.columns@[i].tp == tp,
        schema.columns@[i].name matches Some(n) && n@ == name,
{
    reveal_strlit("id");
    reveal_strlit("cols");
    assert("id"@.len() == 2 && "cols"@.len() == 4);
    lemma_fields_of_two(("id"@, signed_document(id)), ("cols"@, ValueView::Array(cols)));
    let doc = ValueView::Object(
        seq![("id"@, signed_document(id)), ("cols"@, ValueView::Array(cols))],
    );
    assert(document_columns(doc) == cols);
    assert(describes_column(cols[i], schema.columns@[i]));
    lemma_column_document(column_id, name, tp, schema.columns@[i]);
}

/// A document that describes nothing gives a table without columns, with the id zero;
/// a column that is not described has the id zero, no name, and the type of a text of
/// varying length.
pub proof fn missing_descriptions_have_defaults(schema: TableSchema, column: TableColumn)
    ensures
        describes(ValueView::Object(Seq::empty()), schema) ==> schema.id == 0
            && schema.columns@.len() == 0,
        describes_column(ValueView::Object(Seq::empty()), column) ==> column.id == 0 && column.tp
            == 15 && column.name is None,
{
}

/// Whether the column at `k` is the last one with the name.
pub open spec fn is_last_column(columns: Seq<TableColumn>, k: int, name: Seq<char>) -> bool {
    &&& 0 <= k < columns.len()
    &&& columns[k].name matches Some(n) && n@ == name
    &&& forall|j: int|
        k < j < columns.len() ==> ((#[trigger] columns[j]).name matches Some(n) ==> n@ != name)
}

proof fn lemma_document_is_distinct(columns: Seq<TableColumn>)
    ensures
        distinct_keys(schema_document(columns)),
    decreases columns.len(),
{
    if columns.len() > 0 {
        lemma_document_is_distinct(columns.drop_last());
        if let Some(name) = columns.last().name {
            lemma_stored(
                schema_document(columns.drop_last()),
                name@,
                type_document(columns.last().tp),
            );
        }
    }
}

/// Every column that has a name is described under its name by the name of its type, and
/// nothing else is described.
pub proof fn every_named_column_is_described(columns: Seq<TableColumn>, k: int, name: Seq<char>)
    ensures
        distinct_keys(schema_document(columns)),
        is_last_column(columns, k, name) ==> map_of(schema_document(columns)).dom().contains(name)
            && map_of(schema_document(columns))[name] == ValueView::Object(
            seq![("mysql_type"@, ValueView::Text(sql_type_name(columns[k].tp)))],
        ),
        (forall|j: int|
            0 <= j < columns.len() ==> ((#[trigger] columns[j]).name matches Some(n) ==> n@ != name))
            ==> !map_of(schema_document(columns)).dom().contains(name),
    decreases columns.len(),
{
    lemma_document_is_distinct(columns);
    if columns.len() > 0 {
        let less = columns.drop_last();
        every_named_column_is_described(less, k, name);
        let last = columns[columns.len() - 1];
        assert(last == columns.last());
        if let Some(n) = last.name {
            lemma_stored(schema_document(less), n@, type_document(last.tp));
        }
        if is_last_column(columns, k, name) && k < columns.len() - 1 {
            assert(last.name matches Some(n) ==> n@ != name);
            assert forall|j: int| k < j < less.len() implies ((#[trigger] less[j]).name matches Some(
                n,
            ) ==> n@ != name) by {
                assert(less[j] == columns[j]);
            }
            assert(is_last_column(less, k, name));
        }
        if forall|j: int|
            0 <= j < columns.len() ==> ((#[trigger] columns[j]).name matches Some(n) ==> n@
                != name) {
            assert(last.name matches Some(n) ==> n@ != name);
            assert forall|j: int| 0 <= j < less.len() implies ((#[trigger] less[j]).name matches Some(
                n,
            ) ==> n@ != name) by {
                assert(less[j] == columns[j]);
            }
        }
    }
}

/// The result of a collection tells how many columns the table has, where its rows come
/// from, whether the fallback supplied them, and the types of the columns.
pub proof fn results_tell_their_schema(
    extra: Map<Seq<char>, Value>,
    schema: TableSchema,
    endpoint: Seq<char>,
    fallback_used: bool,
)
    requires
        tells_schema(extra, schema, endpoint, fallback_used),
    ensures
        extra.dom().contains("schema_columns"@) && extra["schema_columns"@]@ == ValueView::Number(
            Number::PosInt(schema.columns@.len() as u64),
        ),
        extra.dom().contains("grpc_endpoint"@) && extra["grpc_endpoint"@]@ == ValueView::Text(
            endpoint,
        ),
        extra.dom().contains("fallback_used"@) && extra["fallback_used"@]@ == ValueView::Bool(
            fallback_used,
        ),
        extra.dom().contains("schema_metadata"@) && extra["schema_metadata"@]@
            == ValueView::Object(schema_document(schema.columns@)),
{
}

/// The schema of a table is remembered under the names of its schema and of the table,
/// with a dot between them: two tables of one schema, or of the same name in schemas
/// without a dot, are told apart.
pub proof fn remembered_schemas_are_told_apart(one: TableConfig, other: TableConfig)
    ensures
        cache_key(one) == one.source_schema@ + "."@ + one.source_table@,
        one.source_schema@ == other.source_schema@ && cache_key(one) == cache_key(other)
            ==> one.source_table@ == other.source_table@,
        one.source_table@ == other.source_table@ && cache_key(one) == cache_key(other)
            ==> one.source_schema@ == other.source_schema@,
{
    let start = one.source_schema@ + "."@;
    let other_start = other.source_schema@ + "."@;
    assert(cache_key(one).skip(start.len() as int) =~= one.source_table@);
    assert(cache_key(other).skip(other_start.len() as int) =~= other.source_table@);
    if one.source_table@ == other.source_table@ && cache_key(one) == cache_key(other) {
        assert(start.len() == other_start.len());
        assert(one.source_schema@.len() == other.source_schema@.len());
        let n = one.source_schema@.len() as int;
        assert(cache_key(one).take(n) =~= one.source_schema@);
        assert(cache_key(other).take(n) =~= other.source_schema@);
    }
}

/// A new collector is not connected, knows no schemas, and reaches the status port of
/// the host that it is configured for.
pub proof fn new_collectors_know_nothing(
    collector: CoprocessorCollector,
    config: CollectorConfig,
    host: String,
    port: u16,
    table: TableConfig,
)
    requires
        collector.made_for(config),
        config.config_type == (CollectorConfigType::Coprocessor { host, port }),
    ensures
        collector.config == config,
        !collector.connected,
        collector.known_schema(table) is None,
        collector.grpc_endpoint@ == "http://"@ + host@ + ":"@ + decimal((port + 6080) as nat),
{
}

/// The schema of a table is found at the status port of the instance, under the names of
/// the schema and of the table.
pub proof fn schemas_are_found_at_the_status_port(
    collector: &CoprocessorCollector,
    table: &TableConfig,
    host: String,
    port: u16,
    r: Result<String, CollectionError>,
)
    requires
        call_ensures(CoprocessorCollector::schema_url, (collector, table), r),
    ensures
        r is Ok <==> collector.config.config_type is Coprocessor,
        collector.config.config_type == (CollectorConfigType::Coprocessor { host, port }) ==> (
        r matches Ok(url) && url@ == "http://"@ + host@ + ":"@ + decimal((port + 6080) as nat)
            + "/schema/"@ + table.source_schema@ + "/"@ + table.source_table@),
{
}

/// Rows are asked for where columns are known; where none are, or the schema could not be
/// fetched, the fallback supplies no rows, and says so.
pub proof fn tables_without_schema_have_no_rows(
    fetched: Result<TableSchema, CollectionError>,
    schema: TableSchema,
    used: &TableSchema,
    step: CollectionStep,
    brought: Option<Vec<StringMap<Value>>>,
    rows: (Vec<StringMap<Value>>, bool),
)
    requires
        call_ensures(schema_or_fallback, (fetched,), schema),
        *used == schema,
        call_ensures(collection_step, (used,), step),
        call_ensures(rows_or_fallback, (brought,), rows),
    ensures
        fetched matches Ok(s) ==> schema == s,
        fetched is Err ==> step is Fallback,
        step is Request <==> schema.columns@.len() > 0,
        brought matches Some(b) ==> rows.0 == b && !rows.1,
        brought is None ==> rows.0@.len() == 0 && rows.1,
{
}

/// A response with an error message is an error that tells the message; one without data
/// has no rows.
pub proof fn responses_with_errors_are_errors(
    collector: &CoprocessorCollector,
    other_error: &str,
    data: &[u8],
    table: &TableConfig,
    r: Result<ResponseStep, CollectionError>,
)
    requires
        call_ensures(CoprocessorCollector::response_step, (collector, other_error, data, table), r),
    ensures
        other_error@.len() > 0 ==> (r matches Err(e) && e@ == CollectionErrorView::QueryError(
            "Coprocessor error: "@ + other_error@,
        )),
        other_error@.len() == 0 && data@.len() == 0 ==> (r matches Ok(ResponseStep::NoRows)),
        other_error@.len() == 0 && data@.len() > 0 ==> (r matches Ok(ResponseStep::Decode(_)))
            || (r matches Ok(ResponseStep::FetchSchema)),
{
}

/// A collector by the coprocessor is healthy exactly if it is connected.
pub proof fn collectors_are_healthy_when_connected(
    collector: &CoprocessorCollector,
    health: Result<(), CollectionError>,
)
    requires
        call_ensures(CoprocessorCollector::health_check, (collector,), health),
    ensures
        health is Ok <==> collector.connected,
{
}

/// A schema with columns that was remembered is the one by which a response is read; one
/// without columns is refused, and nothing is remembered.
pub proof fn remembered_schemas_are_used(
    collector: &mut CoprocessorCollector,
    later: &CoprocessorCollector,
    table: &TableConfig,
    schema: TableSchema,
    r: Result<TableSchema, CollectionError>,
    no_error: &str,
    data: &[u8],
    step: Result<ResponseStep, CollectionError>,
)
    requires
        call_ensures(CoprocessorCollector::cache_table_schema, (collector, table, schema), r),
        *later == *final(collector),
        no_error@.len() == 0,
        data@.len() > 0,
        call_ensures(CoprocessorCollector::response_step, (later, no_error, data, table), step),
    ensures
        r is Ok <==> schema.columns@.len() > 0,
        r is Ok ==> (step matches Ok(ResponseStep::Decode(used)) && used.id == schema.id
            && used.columns@ == schema.columns@),
        r is Err ==> final(collector).cached_schemas == old(collector).cached_schemas,
{
    assert(final(collector).known_schema(*table) == later.known_schema(*table));
}

/// A collector that was initialized is healthy, and has kept what it knows.
pub proof fn initialized_collectors_are_healthy(
    collector: &mut CoprocessorCollector,
    later: &CoprocessorCollector,
    r: Result<(), CollectionError>,
)
    requires
        call_ensures(CoprocessorCollector::initialize, (collector,), ()),
        *later == *final(collector),
        call_ensures(CoprocessorCollector::health_check, (later,), r),
    ensures
        r is Ok,
        later.config == old(collector).config,
        later.grpc_endpoint == old(collector).grpc_endpoint,
        later.cached_schemas == old(collector).cached_schemas,
{
}

/// A request that failed leads to the fallback, which brings no rows.
pub proof fn failed_requests_bring_no_rows(
    collector: &CoprocessorCollector,
    step: CollectionStep,
    rows: Vec<StringMap<Value>>,
)
    requires
        call_ensures(CoprocessorCollector::request_failed, (collector,), step),
        call_ensures(fallback_to_http_collection, (), rows),
    ensures
        step == CollectionStep::Fallback,
        rows@ == Seq::<StringMap<Value>>::empty(),
{
}

} // verus!
