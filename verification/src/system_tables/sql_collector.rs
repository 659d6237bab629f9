//! Collection of table data by SQL queries.
//!
//! The collector decides which queries are made and what the cells of the
//! answers mean. Queries are sent, and cells are read, elsewhere.
use vstd::prelude::*;
use vstd::string::*;
use crate::bytes::{as_signed, to_signed};
use crate::clock::{
    parts_are_determined, pattern_text, utc_text, writable_seconds, TimeParts, Timestamp,
    TIME_PATTERN,
};
use crate::string_map::StringMap;
use crate::system_tables::config::{DatabaseConfig, TableConfig, TlsConfig};
use crate::system_tables::coprocessor::rows::{row_model, rows_model};
use crate::system_tables::data_collector::{
    configuration_error, CollectionError, CollectionErrorView, CollectionMetadata, CollectionMethod,
    CollectionResult, CollectorConfig, CollectorConfigType,
};
use crate::text::{
    append_decimal, contains, decimal, has_part, has_prefix, integer_in, join, joined,
    joined_holds_every_part, lowercase, occurs_at, other_characters_write_no_integer,
    parse_integer, parts_are_found, parts_have_parts, same, signed_decimal,
    signed_decimal_reads_back, texts, to_lowercase,
};
use crate::value::{FloatForm, FloatFormView, Number, Value, ValueView};

verus! {

/// A cell of an answer: what it is as a value of each of these types, where it can
/// be read as one.
pub struct SqlCell {
    /// As an unsigned integer
    pub unsigned: Option<u64>,
    /// As a signed integer
    pub signed: Option<i64>,
    /// As a double, by its bits
    pub double: Option<u64>,
    /// As a text
    pub text: Option<String>,
    /// As a point in time without a time zone, in seconds since the beginning of
    /// the year 1970
    pub naive_time: Option<i64>,
    /// As a point in time without a time zone, in seconds since the beginning of
    /// the year 1970, or as an absent one
    pub optional_time: Option<Option<i64>>,
    /// As a point in time in UTC, in seconds since the beginning of the year 1970
    pub utc_time: Option<i64>,
}

impl SqlCell {
    /// Whether each point in time can be written.
    pub open spec fn wf(self) -> bool {
        &&& self.naive_time matches Some(t) ==> writable_seconds(t as int)
        &&& self.optional_time matches Some(Some(t)) ==> writable_seconds(t as int)
        &&& self.utc_time matches Some(t) ==> writable_seconds(t as int)
    }
}

/// A point in time as a value.
pub open spec fn time_value(seconds: i64) -> ValueView {
    ValueView::Text(pattern_text(seconds, TIME_PATTERN@))
}

/// The cell as the number that its text writes, or else as its text.
pub open spec fn number_or_text(cell: SqlCell) -> ValueView {
    match cell.text {
        Some(s) => match integer_in(s@, true, i64::MIN as int, i64::MAX as int) {
            Some(n) => ValueView::Number(Number::of_int(n)),
            None => match integer_in(s@, false, 0, u64::MAX as int) {
                Some(n) => ValueView::Number(Number::of_int(as_signed(n as nat))),
                None => ValueView::Deferred(FloatFormView::OfTextOrText(s@)),
            },
        },
        None => ValueView::Null,
    }
}

/// The cell as an integer, else as a double, else as a text.
pub open spec fn simple_value(cell: SqlCell) -> ValueView {
    match cell.signed {
        Some(n) => ValueView::Number(Number::of_int(n as int)),
        None => match cell.double {
            Some(bits) => ValueView::Number(Number::of_bits(bits)),
            None => match cell.text {
                Some(s) => ValueView::Text(s@),
                None => ValueView::Null,
            },
        },
    }
}

/// The cell as a text, else as a number.
pub open spec fn text_first(cell: SqlCell) -> ValueView {
    match cell.text {
        Some(s) => ValueView::Text(s@),
        None => simple_value(cell),
    }
}

/// The cell as a point in time, else as a text.
pub open spec fn time_first(cell: SqlCell) -> ValueView {
    match cell.naive_time {
        Some(t) => time_value(t),
        None => match cell.optional_time {
            Some(Some(t)) => time_value(t),
            Some(None) => ValueView::Null,
            None => match cell.utc_time {
                Some(t) => time_value(t),
                None => match cell.text {
                    Some(s) => ValueView::Text(s@),
                    None => ValueView::Null,
                },
            },
        },
    }
}

/// The value of a cell in a column of the type `sql_type`, in lower case.
pub open spec fn typed_cell(cell: SqlCell, sql_type: Seq<char>) -> ValueView {
    if has_part(sql_type, "int"@) || has_part(sql_type, "bigint"@) {
        if has_part(sql_type, "unsigned"@) {
            match cell.unsigned {
                Some(n) => ValueView::Number(Number::of_int(as_signed(n as nat))),
                None => number_or_text(cell),
            }
        } else {
            match cell.signed {
                Some(n) => ValueView::Number(Number::of_int(n as int)),
                None => number_or_text(cell),
            }
        }
    } else if has_part(sql_type, "decimal"@) || has_part(sql_type, "float"@) || has_part(
        sql_type,
        "double"@,
    ) || has_part(sql_type, "real"@) {
        match cell.double {
            Some(bits) => ValueView::Number(Number::of_bits(bits)),
            None => number_or_text(cell),
        }
    } else if has_part(sql_type, "timestamp"@) || has_part(sql_type, "datetime"@) {
        time_first(cell)
    } else {
        text_first(cell)
    }
}

/// The value of a cell in the column `name`, of which the types are known.
pub open spec fn cell_value(
    cell: SqlCell,
    name: Seq<char>,
    column_types: Map<Seq<char>, (String, bool)>,
) -> ValueView {
    if column_types.dom().contains(name) {
        typed_cell(cell, lowercase(column_types[name].0@))
    } else {
        simple_value(cell)
    }
}

/// Try to parse string as number, fallback to string.
pub fn try_parse_string_as_number(cell: &SqlCell) -> (r: Value)
    ensures
        r@ == number_or_text(*cell),
{
    match &cell.text {
        Some(s) => {
            if let Some(n) = parse_integer(s.as_str(), true, i64::MIN as i128, i64::MAX as i128) {
                return Value::Number(Number::from_i64(n as i64));
            }
            if let Some(n) = parse_integer(s.as_str(), false, 0, u64::MAX as i128) {
                return Value::Number(Number::from_i64(to_signed(n as u64)));
            }
            Value::Deferred(FloatForm::OfTextOrText(s.clone()))
        },
        None => Value::Null,
    }
}

/// Simple type conversion fallback.
pub fn try_simple_conversion(cell: &SqlCell) -> (r: Value)
    ensures
        r@ == simple_value(*cell),
{
    if let Some(n) = cell.signed {
        return Value::Number(Number::from_i64(n));
    }
    if let Some(bits) = cell.double {
        return Value::Number(Number::from_bits(bits));
    }
    match &cell.text {
        Some(s) => Value::Text(s.clone()),
        None => Value::Null,
    }
}

/// Try to get as string first, with numeric fallback.
pub fn try_get_as_string_first(cell: &SqlCell) -> (r: Value)
    ensures
        r@ == text_first(*cell),
{
    match &cell.text {
        Some(s) => Value::Text(s.clone()),
        None => try_simple_conversion(cell),
    }
}

fn time_text(seconds: i64) -> (r: Value)
    requires
        writable_seconds(seconds as int),
    ensures
        r@ == time_value(seconds),
{
    Value::Text(utc_text(seconds, TIME_PATTERN))
}

fn try_get_as_time_first(cell: &SqlCell) -> (r: Value)
    requires
        cell.wf(),
    ensures
        r@ == time_first(*cell),
{
    if let Some(t) = cell.naive_time {
        return time_text(t);
    }
    match cell.optional_time {
        Some(Some(t)) => time_text(t),
        Some(None) => Value::Null,
        None => match cell.utc_time {
            Some(t) => time_text(t),
            None => match &cell.text {
                Some(s) => Value::Text(s.clone()),
                None => Value::Null,
            },
        },
    }
}

/// Convert a cell to a value using schema information.
pub fn convert_mysql_value(
    cell: &SqlCell,
    column_name: &str,
    column_types: &StringMap<(String, bool)>,
) -> (r: Value)
    requires
        cell.wf(),
    ensures
        r@ == cell_value(*cell, column_name@, column_types@),
{
    match column_types.get(column_name) {
        None => try_simple_conversion(cell),
        Some(column) => {
            let sql_type = to_lowercase(column.0.as_str());
            let t = sql_type.as_str();
            if contains(t, "int") || contains(t, "bigint") {
                if contains(t, "unsigned") {
                    match cell.unsigned {
                        Some(n) => Value::Number(Number::from_i64(to_signed(n))),
                        None => try_parse_string_as_number(cell),
                    }
                } else {
                    match cell.signed {
                        Some(n) => Value::Number(Number::from_i64(n)),
                        None => try_parse_string_as_number(cell),
                    }
                }
            } else if contains(t, "decimal") || contains(t, "float") || contains(t, "double")
                || contains(t, "real") {
                match cell.double {
                    Some(bits) => Value::Number(Number::from_bits(bits)),
                    None => try_parse_string_as_number(cell),
                }
            } else if contains(t, "timestamp") || contains(t, "datetime") {
                try_get_as_time_first(cell)
            } else {
                try_get_as_string_first(cell)
            }
        },
    }
}

/// A column of a table as the database describes it.
pub struct ColumnDescription {
    /// Name of the column
    pub field: String,
    /// Type of the column
    pub sql_type: String,
    /// `YES` for a column that may be null
    pub null: String,
}

/// The types of the columns by name, and whether they may be null. Where a name is
/// described twice, the later description counts.
pub open spec fn types_of(columns: Seq<ColumnDescription>) -> Map<Seq<char>, (Seq<char>, bool)>
    decreases columns.len(),
{
    if columns.len() == 0 {
        Map::empty()
    } else {
        types_of(columns.drop_last()).insert(
            columns.last().field@,
            (columns.last().sql_type@, columns.last().null@ == "YES"@),
        )
    }
}

/// What a map of column types holds.
pub open spec fn types_model(types: Map<Seq<char>, (String, bool)>) -> Map<
    Seq<char>,
    (Seq<char>, bool),
> {
    types.map_values(|t: (String, bool)| (t.0@, t.1))
}

/// The types of the columns by name, and whether they may be null.
pub fn column_types(columns: &Vec<ColumnDescription>) -> (r: StringMap<(String, bool)>)
    ensures
        types_model(r@) == types_of(columns@),
{
    let mut types: StringMap<(String, bool)> = StringMap::new();
    let mut i: usize = 0;
    assert(types_model(types@) =~= types_of(columns@.take(0)));
    while i < columns.len()
        invariant
            i <= columns@.len(),
            types_model(types@) == types_of(columns@.take(i as int)),
        decreases columns@.len() - i,
    {
        let ghost upto = columns@.take(i + 1);
        assert(upto.drop_last() =~= columns@.take(i as int));
        let column = &columns[i];
        let nullable = same(column.null.as_str(), "YES");
        let ghost before = types@;
        types.insert(column.field.clone(), (column.sql_type.clone(), nullable));
        assert(types_model(types@) =~= types_model(before).insert(
            column.field@,
            (column.sql_type@, nullable),
        ));
        i += 1;
    }
    assert(columns@.take(i as int) =~= columns@);
    types
}

/// A row with the values of these cells by column name. Where a name occurs twice,
/// the later cell counts.
pub open spec fn cells_row(
    cells: Seq<(String, SqlCell)>,
    column_types: Map<Seq<char>, (String, bool)>,
) -> Map<Seq<char>, ValueView>
    decreases cells.len(),
{
    if cells.len() == 0 {
        Map::empty()
    } else {
        cells_row(cells.drop_last(), column_types).insert(
            cells.last().0@,
            cell_value(cells.last().1, cells.last().0@, column_types),
        )
    }
}

/// Whether every cell of every row is well-formed.
pub open spec fn cells_wf(rows: Seq<Vec<(String, SqlCell)>>) -> bool {
    forall|i: int, j: int|
        0 <= i < rows.len() && 0 <= j < rows[i]@.len() ==> (#[trigger] rows[i]@[j]).1.wf()
}

/// A row with the values of these cells by column name.
fn convert_row(cells: &Vec<(String, SqlCell)>, types: &StringMap<(String, bool)>) -> (r: StringMap<
    Value,
>)
    requires
        forall|j: int| 0 <= j < cells@.len() ==> (#[trigger] cells@[j]).1.wf(),
    ensures
        row_model(r@) == cells_row(cells@, types@),
{
    let mut row: StringMap<Value> = StringMap::new();
    let mut i: usize = 0;
    assert(row_model(row@) =~= cells_row(cells@.take(0), types@));
    while i < cells.len()
        invariant
            forall|j: int| 0 <= j < cells@.len() ==> (#[trigger] cells@[j]).1.wf(),
            i <= cells@.len(),
            row_model(row@) == cells_row(cells@.take(i as int), types@),
        decreases cells@.len() - i,
    {
        let ghost upto = cells@.take(i + 1);
        assert(upto.drop_last() =~= cells@.take(i as int));
        let value = convert_mysql_value(&cells[i].1, cells[i].0.as_str(), types);
        let ghost before = row@;
        row.insert(cells[i].0.clone(), value);
        assert(row_model(row@) =~= row_model(before).insert(cells@[i as int].0@, value@));
        i += 1;
    }
    assert(cells@.take(i as int) =~= cells@);
    row
}

/// The rows of an answer: for each row its values by column name.
pub fn convert_rows(rows: &Vec<Vec<(String, SqlCell)>>, types: &StringMap<(String, bool)>) -> (r:
    Vec<StringMap<Value>>)
    requires
        cells_wf(rows@),
    ensures
        rows_model(r@) == rows@.map_values(
            |cells: Vec<(String, SqlCell)>| cells_row(cells@, types@),
        ),
{
    let mut out: Vec<StringMap<Value>> = Vec::new();
    let mut i: usize = 0;
    let ghost want = rows@.map_values(|cells: Vec<(String, SqlCell)>| cells_row(cells@, types@));
    while i < rows.len()
        invariant
            cells_wf(rows@),
            i <= rows@.len(),
            want == rows@.map_values(
                |cells: Vec<(String, SqlCell)>| cells_row(cells@, types@),
            ),
            out@.len() == i,
            forall|k: int| 0 <= k < i ==> row_model((#[trigger] out@[k])@) == want[k],
        decreases rows@.len() - i,
    {
        out.push(convert_row(&rows[i], types));
        i += 1;
    }
    assert(rows_model(out@) =~= want);
    out
}

/// The query for the columns of a table.
pub fn schema_query(table: &TableConfig) -> (r: String)
    ensures
        r@ == "SHOW COLUMNS FROM "@ + table.source_schema@ + "."@ + table.source_table@,
{
    "SHOW COLUMNS FROM ".to_string().concat(table.source_schema.as_str()).concat(".").concat(
        table.source_table.as_str(),
    )
}

/// The query for the rows of a table.
pub open spec fn data_query_text(table: TableConfig) -> Seq<char> {
    let all = "SELECT * FROM "@ + table.source_schema@ + "."@ + table.source_table@;
    match table.where_clause {
        Some(clause) => all + " WHERE "@ + clause@,
        None => all,
    }
}

/// The query for the rows of a table.
pub fn data_query(table: &TableConfig) -> (r: String)
    ensures
        r@ == data_query_text(*table),
{
    let all = "SELECT * FROM ".to_string().concat(table.source_schema.as_str()).concat(".").concat(
        table.source_table.as_str(),
    );
    match &table.where_clause {
        Some(clause) => all.concat(" WHERE ").concat(clause.as_str()),
        None => all,
    }
}

/// How strictly the server is checked.
pub open spec fn ssl_mode(tls: TlsConfig) -> Seq<char> {
    if tls.verify_certificate == Some(false) {
        "ssl-mode=REQUIRED"@
    } else if tls.verify_hostname == Some(false) {
        "ssl-mode=VERIFY_CA"@
    } else {
        "ssl-mode=VERIFY_IDENTITY"@
    }
}

/// A parameter for a file, where there is one.
pub open spec fn file_parameter(name: Seq<char>, file: Option<String>) -> Seq<Seq<char>> {
    match file {
        Some(path) => seq![name + path@],
        None => Seq::empty(),
    }
}

/// The parameters of a connection with TLS.
pub open spec fn tls_parameters(tls: TlsConfig) -> Seq<Seq<char>> {
    seq![ssl_mode(tls)] + file_parameter("ssl-ca="@, tls.ca_file) + file_parameter(
        "ssl-cert="@,
        tls.crt_file,
    ) + file_parameter("ssl-key="@, tls.key_file)
}

/// The address of a database.
pub open spec fn connection_text(database: DatabaseConfig) -> Seq<char> {
    let plain = "mysql://"@ + database.username@ + ":"@ + database.password@ + "@"@ + database.host@
        + ":"@ + decimal(database.port as nat) + "/"@ + database.database@;
    match database.tls {
        Some(tls) => plain + "?"@ + joined(tls_parameters(tls), "&"@),
        None => plain,
    }
}

fn push_file(parameters: &mut Vec<String>, name: &str, file: &Option<String>)
    ensures
        texts(final(parameters)@) == texts(old(parameters)@) + file_parameter(name@, *file),
{
    if let Some(path) = file {
        parameters.push(name.to_string().concat(path.as_str()));
    }
    assert(texts(parameters@) =~= texts(old(parameters)@) + file_parameter(name@, *file));
}

/// The address of a database.
pub fn connection_url(database: &DatabaseConfig) -> (r: String)
    ensures
        r@ == connection_text(*database),
{
    let mut url = "mysql://".to_string().concat(database.username.as_str()).concat(":").concat(
        database.password.as_str(),
    ).concat("@").concat(database.host.as_str()).concat(":");
    append_decimal(&mut url, database.port as u64);
    url.append("/");
    url.append(database.database.as_str());
    if let Some(tls) = &database.tls {
        let mut parameters: Vec<String> = Vec::new();
        let strict = match tls.verify_certificate {
            Some(b) => b,
            None => true,
        };
        let named = match tls.verify_hostname {
            Some(b) => b,
            None => true,
        };
        if strict {
            if named {
                parameters.push("ssl-mode=VERIFY_IDENTITY".to_string());
            } else {
                parameters.push("ssl-mode=VERIFY_CA".to_string());
            }
        } else {
            parameters.push("ssl-mode=REQUIRED".to_string());
        }
        assert(texts(parameters@) =~= seq![ssl_mode(*tls)]);
        push_file(&mut parameters, "ssl-ca=", &tls.ca_file);
        push_file(&mut parameters, "ssl-cert=", &tls.crt_file);
        push_file(&mut parameters, "ssl-key=", &tls.key_file);
        url.append("?");
        url.append(join(&parameters, "&").as_str());
    }
    url
}

/// What a pool of connections is made with.
pub struct PoolSettings {
    pub url: String,
    pub max_connections: u32,
    pub acquire_timeout_secs: u64,
}

/// SQL-based data collector.
pub struct SqlCollector {
    pub config: CollectorConfig,
    /// Whether there is a pool of connections.
    pub connected: bool,
}

impl SqlCollector {
    /// Create a new SQL collector.
    pub fn new(config: CollectorConfig) -> (r: Result<Self, CollectionError>)
        ensures
            match r {
                Ok(collector) => config.config_type is Sql && collector.config == config
                    && !collector.connected,
                Err(e) => !(config.config_type is Sql) && e@
                    == CollectionErrorView::ConfigurationError(
                    "Invalid config type for SqlCollector"@,
                ),
            },
    {
        match &config.config_type {
            CollectorConfigType::Sql { .. } => Ok(SqlCollector { config, connected: false }),
            _ => Err(configuration_error("Invalid config type for SqlCollector")),
        }
    }

    /// What the pool of connections is made with.
    pub fn pool_settings(&self) -> (r: Result<PoolSettings, CollectionError>)
        ensures
            match r {
                Ok(pool) => self.config.config_type matches CollectorConfigType::Sql {
                    database_config,
                } && pool.url@ == connection_text(database_config) && pool.max_connections
                    == match database_config.max_connections {
                    Some(n) => n,
                    None => 10,
                } && pool.acquire_timeout_secs == match database_config.connect_timeout {
                    Some(n) => n,
                    None => 30,
                },
                Err(e) => !(self.config.config_type is Sql) && e@
                    == CollectionErrorView::ConfigurationError(
                    "SQL collector requires SQL configuration"@,
                ),
            },
    {
        match &self.config.config_type {
            CollectorConfigType::Sql { database_config } => Ok(
                PoolSettings {
                    url: connection_url(database_config),
                    max_connections: match database_config.max_connections {
                        Some(n) => n,
                        None => 10,
                    },
                    acquire_timeout_secs: match database_config.connect_timeout {
                        Some(n) => n,
                        None => 30,
                    },
                },
            ),
            _ => Err(configuration_error("SQL collector requires SQL configuration")),
        }
    }

    /// The collection method of this collector.
    pub fn collection_method(&self) -> (r: CollectionMethod)
        ensures
            r == CollectionMethod::Sql,
    {
        CollectionMethod::Sql
    }

    /// A SQL collector can handle any table.
    pub fn can_collect_table(&self, _table: &TableConfig) -> (r: bool)
        ensures
            r,
    {
        true
    }

    /// Notes that there is a pool of connections.
    pub fn initialize(&mut self)
        ensures
            final(self).connected,
            final(self).config == old(self).config,
    {
        self.connected = true;
    }

    /// Whether queries can be made.
    pub fn health_check(&self) -> (r: Result<(), CollectionError>)
        ensures
            match r {
                Ok(_) => self.connected,
                Err(e) => !self.connected && e@ == CollectionErrorView::ConfigurationError(
                    "Pool not initialized"@,
                ),
            },
    {
        if self.connected {
            Ok(())
        } else {
            Err(configuration_error("Pool not initialized"))
        }
    }

    /// The result of a collection.
    pub fn collection_result(
        &self,
        table: &TableConfig,
        types: &StringMap<(String, bool)>,
        data: Vec<StringMap<Value>>,
        timestamp: Timestamp,
        duration_ms: u64,
    ) -> (r: CollectionResult)
        ensures
            r.data == data,
            r.metadata.instance@ == self.config.instance@,
            r.metadata.table_config == *table,
            r.metadata.collection_method == CollectionMethod::Sql,
            r.metadata.timestamp == timestamp,
            r.metadata.row_count == data@.len(),
            r.metadata.duration_ms == duration_ms,
            r.metadata.extra@.dom() == set!["schema_columns"@],
            r.metadata.extra@["schema_columns"@]@ == ValueView::Number(
                Number::PosInt(types.items().len() as u64),
            ),
    {
        let mut extra: StringMap<Value> = StringMap::new();
        extra.insert(
            "schema_columns".to_string(),
            Value::Number(Number::PosInt(types.len() as u64)),
        );
        assert(extra@.dom() =~= set!["schema_columns"@]);
        let row_count: usize = data.len();
        CollectionResult {
            data,
            metadata: CollectionMetadata {
                instance: self.config.instance.clone(),
                table_config: table.clone(),
                collection_method: CollectionMethod::Sql,
                timestamp,
                row_count,
                duration_ms,
                extra,
            },
        }
    }
}

/// Whether the cell at `k` is the last one of the column `name`.
pub open spec fn is_last_cell(cells: Seq<(String, SqlCell)>, k: int, name: Seq<char>) -> bool {
    &&& 0 <= k < cells.len()
    &&& cells[k].0@ == name
    &&& forall|j: int| k < j < cells.len() ==> (#[trigger] cells[j]).0@ != name
}

/// Whether a SQL type, in lower case, names an integer type.
pub open spec fn names_integer(sql_type: Seq<char>) -> bool {
    has_part(sql_type, "int"@)
}

/// Whether a SQL type, in lower case, names a type of floating or decimal numbers.
pub open spec fn names_real(sql_type: Seq<char>) -> bool {
    has_part(sql_type, "decimal"@) || has_part(sql_type, "float"@) || has_part(sql_type, "double"@)
        || has_part(sql_type, "real"@)
}

/// Whether a SQL type, in lower case, names a type of points in time.
pub open spec fn names_time(sql_type: Seq<char>) -> bool {
    has_part(sql_type, "timestamp"@) || has_part(sql_type, "datetime"@)
}

/// An integer is a number of its own sign.
pub open spec fn is_integer(value: ValueView, n: int) -> bool {
    if n < 0 {
        value == ValueView::Number(Number::NegInt(n as i64))
    } else {
        value == ValueView::Number(Number::PosInt(n as u64))
    }
}

proof fn lemma_last_cell(
    cells: Seq<(String, SqlCell)>,
    k: int,
    name: Seq<char>,
    types: Map<Seq<char>, (String, bool)>,
)
    requires
        is_last_cell(cells, k, name),
    ensures
        cells_row(cells, types).dom().contains(name),
        cells_row(cells, types)[name] == cell_value(cells[k].1, name, types),
    decreases cells.len(),
{
    if k < cells.len() - 1 {
        let less = cells.drop_last();
        assert(cells.last().0@ != name);
        assert(is_last_cell(less, k, name));
        lemma_last_cell(less, k, name, types);
    }
}

proof fn lemma_bigint_is_int(sql_type: Seq<char>)
    ensures
        has_part(sql_type, "bigint"@) ==> has_part(sql_type, "int"@),
{
    reveal_strlit("bigint");
    reveal_strlit("int");
    assert("bigint"@.subrange(3, 6) =~= "int"@);
    assert(occurs_at("bigint"@, "int"@, 3));
    if has_part(sql_type, "bigint"@) {
        parts_have_parts(sql_type, "bigint"@, "int"@);
    }
}

/// A row has a value for each column that it has a cell for, and for no other.
pub proof fn rows_have_the_columns_of_their_cells(
    cells: Seq<(String, SqlCell)>,
    types: Map<Seq<char>, (String, bool)>,
    name: Seq<char>,
)
    ensures
        cells_row(cells, types).dom().contains(name) <==> exists|k: int|
            0 <= k < cells.len() && (#[trigger] cells[k]).0@ == name,
    decreases cells.len(),
{
    if cells.len() > 0 {
        let less = cells.drop_last();
        rows_have_the_columns_of_their_cells(less, types, name);
        if exists|k: int| 0 <= k < less.len() && (#[trigger] less[k]).0@ == name {
            let k = choose|k: int| 0 <= k < less.len() && (#[trigger] less[k]).0@ == name;
            assert(cells[k].0@ == name);
        }
        if exists|k: int| 0 <= k < cells.len() && (#[trigger] cells[k]).0@ == name {
            let k = choose|k: int| 0 <= k < cells.len() && (#[trigger] cells[k]).0@ == name;
            if k < less.len() {
                assert(less[k].0@ == name);
            }
        }
    }
}

/// A cell that can be read as a text is that text in the row, in a column of any type
/// but numbers and points in time.
pub proof fn text_cells_are_kept(
    cells: Seq<(String, SqlCell)>,
    k: int,
    name: Seq<char>,
    types: Map<Seq<char>, (String, bool)>,
    text: String,
)
    requires
        is_last_cell(cells, k, name),
        types.dom().contains(name),
        !names_integer(lowercase(types[name].0@)),
        !names_real(lowercase(types[name].0@)),
        !names_time(lowercase(types[name].0@)),
        cells[k].1.text == Some(text),
    ensures
        cells_row(cells, types).dom().contains(name),
        cells_row(cells, types)[name] == ValueView::Text(text@),
{
    lemma_last_cell(cells, k, name, types);
    lemma_bigint_is_int(lowercase(types[name].0@));
}

/// A cell that can be read as an integer is that integer in the row, in a column of
/// integers. One without a sign that needs all 64 bits is the integer with a sign that
/// has the same bits.
pub proof fn integer_cells_are_kept(
    cells: Seq<(String, SqlCell)>,
    k: int,
    name: Seq<char>,
    types: Map<Seq<char>, (String, bool)>,
)
    requires
        is_last_cell(cells, k, name),
        types.dom().contains(name),
        names_integer(lowercase(types[name].0@)),
    ensures
        cells_row(cells, types).dom().contains(name),
        ({
            let value = cells_row(cells, types)[name];
            let cell = cells[k].1;
            if has_part(lowercase(types[name].0@), "unsigned"@) {
                cell.unsigned matches Some(n) ==> is_integer(
                    value,
                    if n <= 0x7FFF_FFFF_FFFF_FFFF {
                        n as int
                    } else {
                        n - 0x1_0000_0000_0000_0000
                    },
                )
            } else {
                cell.signed matches Some(n) ==> is_integer(value, n as int)
            }
        }),
{
    lemma_last_cell(cells, k, name, types);
}

/// A cell that can be read as a double is that double in the row, bit by bit, in a
/// column of floating or decimal numbers, or zero where it is infinite or no number.
pub proof fn double_cells_are_kept(
    cells: Seq<(String, SqlCell)>,
    k: int,
    name: Seq<char>,
    types: Map<Seq<char>, (String, bool)>,
    bits: u64,
)
    requires
        is_last_cell(cells, k, name),
        types.dom().contains(name),
        !names_integer(lowercase(types[name].0@)),
        names_real(lowercase(types[name].0@)),
        cells[k].1.double == Some(bits),
    ensures
        cells_row(cells, types).dom().contains(name),
        (bits / 0x10_0000_0000_0000) % 0x800 != 0x7FF ==> cells_row(cells, types)[name]
            == ValueView::Number(Number::Float(bits)),
        (bits / 0x10_0000_0000_0000) % 0x800 == 0x7FF ==> cells_row(cells, types)[name]
            == ValueView::Number(Number::PosInt(0)),
{
    lemma_last_cell(cells, k, name, types);
    lemma_bigint_is_int(lowercase(types[name].0@));
}

/// Whether a cell of a column of numbers cannot be read as a number of its type: an
/// integer with or without a sign, or a double.
pub open spec fn is_number_by_text(cell: SqlCell, sql_type: Seq<char>) -> bool {
    ||| names_integer(sql_type) && has_part(sql_type, "unsigned"@) && cell.unsigned is None
    ||| names_integer(sql_type) && !has_part(sql_type, "unsigned"@) && cell.signed is None
    ||| !names_integer(sql_type) && names_real(sql_type) && cell.double is None
}

/// A number that can be read neither as a number of its type nor as a text is absent.
pub proof fn unreadable_numbers_are_absent(
    cells: Seq<(String, SqlCell)>,
    k: int,
    name: Seq<char>,
    types: Map<Seq<char>, (String, bool)>,
)
    requires
        is_last_cell(cells, k, name),
        types.dom().contains(name),
        is_number_by_text(cells[k].1, lowercase(types[name].0@)),
        cells[k].1.text is None,
    ensures
        cells_row(cells, types).dom().contains(name),
        cells_row(cells, types)[name] == ValueView::Null,
{
    lemma_last_cell(cells, k, name, types);
    lemma_bigint_is_int(lowercase(types[name].0@));
}

/// A cell that cannot be read as a text, in a column of any type but numbers and points
/// in time, is an integer where it can be read as one, else a double, else absent.
pub proof fn cells_without_text_are_numbers(
    cells: Seq<(String, SqlCell)>,
    k: int,
    name: Seq<char>,
    types: Map<Seq<char>, (String, bool)>,
)
    requires
        is_last_cell(cells, k, name),
        types.dom().contains(name),
        !names_integer(lowercase(types[name].0@)),
        !names_real(lowercase(types[name].0@)),
        !names_time(lowercase(types[name].0@)),
        cells[k].1.text is None,
    ensures
        ({
            let value = cells_row(cells, types)[name];
            let cell = cells[k].1;
            &&& cells_row(cells, types).dom().contains(name)
            &&& cell.signed matches Some(n) ==> is_integer(value, n as int)
            &&& cell.signed is None ==> (cell.double matches Some(bits) ==> (bits
                / 0x10_0000_0000_0000) % 0x800 != 0x7FF ==> value == ValueView::Number(
                Number::Float(bits),
            ))
            &&& cell.signed is None && cell.double is None ==> value == ValueView::Null
        }),
{
    lemma_last_cell(cells, k, name, types);
    lemma_bigint_is_int(lowercase(types[name].0@));
}

/// A number that the database hands over as a text is the number that the text writes;
/// a text that writes no integer is the double that it spells, or else the text.
pub proof fn written_numbers_are_kept(
    cells: Seq<(String, SqlCell)>,
    k: int,
    name: Seq<char>,
    types: Map<Seq<char>, (String, bool)>,
    text: String,
)
    requires
        is_last_cell(cells, k, name),
        types.dom().contains(name),
        is_number_by_text(cells[k].1, lowercase(types[name].0@)),
        cells[k].1.text == Some(text),
    ensures
        cells_row(cells, types).dom().contains(name),
        forall|n: int|
            i64::MIN <= n <= i64::MAX && text@ == #[trigger] signed_decimal(n) ==> is_integer(
                cells_row(cells, types)[name],
                n,
            ),
        forall|n: int|
            i64::MAX < n <= u64::MAX && text@ == #[trigger] signed_decimal(n) ==> is_integer(
                cells_row(cells, types)[name],
                n - 0x1_0000_0000_0000_0000,
            ),
        forall|i: int|
            0 < i < text@.len() && !('0' <= #[trigger] text@[i] <= '9') ==> cells_row(cells, types)[name]
                == ValueView::Deferred(FloatFormView::OfTextOrText(text@)),
{
    lemma_last_cell(cells, k, name, types);
    lemma_bigint_is_int(lowercase(types[name].0@));
    assert forall|n: int|
        i64::MIN <= n <= i64::MAX && text@ == #[trigger] signed_decimal(n) implies is_integer(
        cells_row(cells, types)[name],
        n,
    ) by {
        signed_decimal_reads_back(n, i64::MIN as int, i64::MAX as int);
    }
    assert forall|n: int|
        i64::MAX < n <= u64::MAX && text@ == #[trigger] signed_decimal(n) implies is_integer(
        cells_row(cells, types)[name],
        n - 0x1_0000_0000_0000_0000,
    ) by {
        signed_decimal_reads_back(n, 0, u64::MAX as int);
    }
    assert forall|i: int| 0 < i < text@.len() && !('0' <= #[trigger] text@[i] <= '9') implies cells_row(
        cells,
        types,
    )[name] == ValueView::Deferred(FloatFormView::OfTextOrText(text@)) by {
        other_characters_write_no_integer(text@, true, i64::MIN as int, i64::MAX as int, i);
        other_characters_write_no_integer(text@, false, 0, u64::MAX as int, i);
    }
}

/// A cell that can be read as a point in time is in the row the date and the time of
/// day of that point in time, in UTC, in a column of timestamps or date times; an absent
/// one is absent, and what is no point in time is its text.
pub proof fn time_cells_are_kept(
    cells: Seq<(String, SqlCell)>,
    k: int,
    name: Seq<char>,
    types: Map<Seq<char>, (String, bool)>,
    parts: TimeParts,
    seconds: i64,
)
    requires
        is_last_cell(cells, k, name),
        types.dom().contains(name),
        !names_integer(lowercase(types[name].0@)),
        !names_real(lowercase(types[name].0@)),
        names_time(lowercase(types[name].0@)),
        parts.is_at(seconds as int),
    ensures
        cells_row(cells, types).dom().contains(name),
        ({
            let value = cells_row(cells, types)[name];
            let cell = cells[k].1;
            &&& cell.naive_time == Some(seconds) ==> value == ValueView::Text(parts.text())
            &&& cell.naive_time is None && cell.optional_time == Some(Some(seconds)) ==> value
                == ValueView::Text(parts.text())
            &&& cell.naive_time is None && cell.optional_time == Some(None::<i64>) ==> value
                == ValueView::Null
            &&& cell.naive_time is None && cell.optional_time is None && cell.utc_time == Some(
                seconds,
            ) ==> value == ValueView::Text(parts.text())
            &&& cell.naive_time is None && cell.optional_time is None && cell.utc_time is None ==> (
            cell.text matches Some(text) ==> value == ValueView::Text(text@))
        }),
{
    lemma_last_cell(cells, k, name, types);
    lemma_bigint_is_int(lowercase(types[name].0@));
    parts_are_determined(parts, seconds as int);
    reveal_strlit("%Y-%m-%d");
    reveal_strlit("%Y-%m-%d %H:%M:%S");
    assert("%Y-%m-%d"@.len() == 8);
    assert("%Y-%m-%d %H:%M:%S"@.len() == 17);
}

/// A cell of a column that was not described is an integer where it can be read as one,
/// else a double, else a text.
pub proof fn undescribed_cells_are_kept(
    cells: Seq<(String, SqlCell)>,
    k: int,
    name: Seq<char>,
    types: Map<Seq<char>, (String, bool)>,
)
    requires
        is_last_cell(cells, k, name),
        !types.dom().contains(name),
    ensures
        cells_row(cells, types).dom().contains(name),
        ({
            let value = cells_row(cells, types)[name];
            let cell = cells[k].1;
            &&& cell.signed matches Some(n) ==> is_integer(value, n as int)
            &&& cell.signed is None ==> (cell.double matches Some(bits) ==> (bits
                / 0x10_0000_0000_0000) % 0x800 != 0x7FF ==> value == ValueView::Number(
                Number::Float(bits),
            ))
            &&& cell.signed is None && cell.double is None ==> (cell.text matches Some(text)
                ==> value == ValueView::Text(text@))
        }),
{
    lemma_last_cell(cells, k, name, types);
}

/// A cell that cannot be read at all is absent in the row, whatever its type.
pub proof fn unreadable_cells_are_absent(
    cells: Seq<(String, SqlCell)>,
    k: int,
    name: Seq<char>,
    types: Map<Seq<char>, (String, bool)>,
)
    requires
        is_last_cell(cells, k, name),
        cells[k].1.unsigned is None,
        cells[k].1.signed is None,
        cells[k].1.double is None,
        cells[k].1.text is None,
        cells[k].1.naive_time is None,
        cells[k].1.optional_time is None || cells[k].1.optional_time == Some(None::<i64>),
        cells[k].1.utc_time is None,
    ensures
        cells_row(cells, types).dom().contains(name),
        cells_row(cells, types)[name] == ValueView::Null,
{
    lemma_last_cell(cells, k, name, types);
}

/// The last description of a column counts: its type as it is written, and whether it
/// says `YES` of being null. A column that is not described has no type.
pub proof fn last_description_counts(columns: Seq<ColumnDescription>, k: int, name: Seq<char>)
    ensures
        0 <= k < columns.len() && columns[k].field@ == name && (forall|j: int|
            k < j < columns.len() ==> (#[trigger] columns[j]).field@ != name) ==> types_of(
            columns,
        ).dom().contains(name) && types_of(columns)[name] == (
            columns[k].sql_type@,
            columns[k].null@ == "YES"@,
        ),
        (forall|j: int| 0 <= j < columns.len() ==> (#[trigger] columns[j]).field@ != name)
            ==> !types_of(columns).dom().contains(name),
    decreases columns.len(),
{
    if columns.len() > 0 {
        let less = columns.drop_last();
        last_description_counts(less, k, name);
        assert(forall|j: int| 0 <= j < less.len() ==> #[trigger] less[j] == columns[j]);
        if forall|j: int| 0 <= j < columns.len() ==> (#[trigger] columns[j]).field@ != name {
            assert forall|j: int| 0 <= j < less.len() implies (#[trigger] less[j]).field@
                != name by {
                assert(columns[j].field@ != name);
            }
            assert(columns[columns.len() - 1].field@ != name);
        }
        if 0 <= k < columns.len() - 1 && (forall|j: int|
            k < j < columns.len() ==> (#[trigger] columns[j]).field@ != name) {
            assert forall|j: int| k < j < less.len() implies (#[trigger] less[j]).field@
                != name by {
                assert(columns[j].field@ != name);
            }
            assert(columns[columns.len() - 1].field@ != name);
        }
    }
}

/// All rows of the table that is named are asked for, and those that meet the condition
/// where there is one.
pub proof fn queries_ask_for_the_table(table: TableConfig, all: TableConfig)
    requires
        all.source_schema@ == table.source_schema@,
        all.source_table@ == table.source_table@,
        all.where_clause is None,
    ensures
        data_query_text(all) == "SELECT * FROM "@ + table.source_schema@ + "."@
            + table.source_table@,
        table.where_clause matches Some(clause) ==> data_query_text(table) == data_query_text(all)
            + (" WHERE "@ + clause@),
        table.where_clause is None ==> data_query_text(table) == data_query_text(all),
{
    if let Some(clause) = table.where_clause {
        assert(data_query_text(table) =~= data_query_text(all) + (" WHERE "@ + clause@));
    }
}

/// The address of a database without TLS names the user, the password, the host, the
/// port and the database; with TLS it goes on with parameters.
pub proof fn addresses_name_the_database(database: DatabaseConfig, plain: DatabaseConfig)
    requires
        plain == (DatabaseConfig { tls: None, ..database }),
    ensures
        connection_text(plain) == "mysql://"@ + database.username@ + ":"@ + database.password@
            + "@"@ + database.host@ + ":"@ + decimal(database.port as nat) + "/"@
            + database.database@,
        database.tls is Some ==> has_prefix(
            connection_text(database),
            connection_text(plain) + "?"@,
        ),
        database.tls is None ==> connection_text(database) == connection_text(plain),
{
    if let Some(tls) = database.tls {
        parts_are_found(
            Seq::empty(),
            connection_text(plain) + "?"@,
            joined(tls_parameters(tls), "&"@),
        );
    }
}

/// With TLS the certificate and the name of the server are checked, unless the
/// configuration says otherwise, and each file that is configured is named.
pub proof fn addresses_tell_how_the_server_is_checked(database: DatabaseConfig, tls: TlsConfig)
    requires
        database.tls == Some(tls),
    ensures
        tls.verify_certificate != Some(false) && tls.verify_hostname != Some(false) ==> has_part(
            connection_text(database),
            "ssl-mode=VERIFY_IDENTITY"@,
        ),
        tls.verify_certificate != Some(false) && tls.verify_hostname == Some(false) ==> has_part(
            connection_text(database),
            "ssl-mode=VERIFY_CA"@,
        ),
        tls.verify_certificate == Some(false) ==> has_part(
            connection_text(database),
            "ssl-mode=REQUIRED"@,
        ),
        tls.ca_file matches Some(path) ==> has_part(
            connection_text(database),
            "ssl-ca="@ + path@,
        ),
        tls.crt_file matches Some(path) ==> has_part(
            connection_text(database),
            "ssl-cert="@ + path@,
        ),
        tls.key_file matches Some(path) ==> has_part(
            connection_text(database),
            "ssl-key="@ + path@,
        ),
{
    let parameters = tls_parameters(tls);
    let between = "&"@;
    let rest = joined(parameters, between);
    let whole = connection_text(database);
    assert forall|i: int| 0 <= i < parameters.len() implies has_part(
        whole,
        #[trigger] parameters[i],
    ) by {
        joined_holds_every_part(parameters, between, i);
        let start = connection_text(DatabaseConfig { tls: None, ..database }) + "?"@;
        parts_are_found(start, rest, Seq::empty());
        assert(start + rest + Seq::<char>::empty() =~= whole);
        parts_have_parts(whole, rest, parameters[i]);
    }
    let a = file_parameter("ssl-ca="@, tls.ca_file);
    let b = file_parameter("ssl-cert="@, tls.crt_file);
    let c = file_parameter("ssl-key="@, tls.key_file);
    assert(parameters == seq![ssl_mode(tls)] + a + b + c);
    assert(parameters[0] == ssl_mode(tls));
    if tls.ca_file is Some {
        assert(parameters[1] == a[0]);
    }
    if tls.crt_file is Some {
        assert(parameters[1int + a.len()] == b[0]);
    }
    if tls.key_file is Some {
        assert(parameters[1int + a.len() + b.len()] == c[0]);
    }
}

/// The query for the columns of a table and the one for its rows name the same table.
pub proof fn both_queries_name_the_table(
    table: &TableConfig,
    columns: String,
    rows: String,
    name: Seq<char>,
)
    requires
        call_ensures(schema_query, (table,), columns),
        call_ensures(data_query, (table,), rows),
        name == table.source_schema@ + "."@ + table.source_table@,
    ensures
        columns@ == "SHOW COLUMNS FROM "@ + name,
        table.where_clause is None ==> rows@ == "SELECT * FROM "@ + name,
        table.where_clause matches Some(clause) ==> rows@ == "SELECT * FROM "@ + name + " WHERE "@
            + clause@,
{
    assert(columns@ =~= "SHOW COLUMNS FROM "@ + name);
    if let Some(clause) = table.where_clause {
        assert(rows@ =~= "SELECT * FROM "@ + name + " WHERE "@ + clause@);
    } else {
        assert(rows@ =~= "SELECT * FROM "@ + name);
    }
}

/// A pool has as many connections and waits as long as is configured, and else ten
/// connections and thirty seconds; only a collector by SQL has one.
pub proof fn pools_are_as_configured(
    collector: &SqlCollector,
    database: DatabaseConfig,
    r: Result<PoolSettings, CollectionError>,
)
    requires
        call_ensures(SqlCollector::pool_settings, (collector,), r),
    ensures
        r is Ok <==> collector.config.config_type is Sql,
        collector.config.config_type == (CollectorConfigType::Sql { database_config: database })
            ==> (r matches Ok(pool) && {
            &&& database.max_connections matches Some(n) ==> pool.max_connections == n
            &&& database.max_connections is None ==> pool.max_connections == 10
            &&& database.connect_timeout matches Some(n) ==> pool.acquire_timeout_secs == n
            &&& database.connect_timeout is None ==> pool.acquire_timeout_secs == 30
        }),
{
}

/// A collector by SQL is made for a configuration of its own kind and for no other,
/// without a connection; it is healthy exactly if it has one, and reads every table.
pub proof fn sql_collectors_are_healthy_when_connected(
    config: CollectorConfig,
    made: Result<SqlCollector, CollectionError>,
    collector: &SqlCollector,
    health: Result<(), CollectionError>,
    table: &TableConfig,
    reads: bool,
)
    requires
        call_ensures(SqlCollector::new, (config,), made),
        call_ensures(SqlCollector::health_check, (collector,), health),
        call_ensures(SqlCollector::can_collect_table, (collector, table), reads),
    ensures
        made is Ok <==> config.config_type is Sql,
        made matches Ok(c) ==> c.config == config && !c.connected,
        health is Ok <==> collector.connected,
        reads,
{
}

/// A cell is converted to its text in a column of any type but numbers and points in
/// time, in upper or lower case.
pub proof fn texts_are_converted_to_texts(
    cell: &SqlCell,
    name: &str,
    types: &StringMap<(String, bool)>,
    text: String,
    r: Value,
)
    requires
        call_ensures(convert_mysql_value, (cell, name, types), r),
        types@.dom().contains(name@),
        !names_integer(lowercase(types@[name@].0@)),
        !names_real(lowercase(types@[name@].0@)),
        !names_time(lowercase(types@[name@].0@)),
        cell.text == Some(text),
    ensures
        r@ == ValueView::Text(text@),
{
    lemma_bigint_is_int(lowercase(types@[name@].0@));
}

/// A collector that was initialized is healthy, and has kept its configuration.
pub proof fn initialized_sql_collectors_are_healthy(
    collector: &mut SqlCollector,
    later: &SqlCollector,
    r: Result<(), CollectionError>,
)
    requires
        call_ensures(SqlCollector::initialize, (collector,), ()),
        *later == *final(collector),
        call_ensures(SqlCollector::health_check, (later,), r),
    ensures
        r is Ok,
        later.config == old(collector).config,
{
}

/// A cell that can be read as text is that text where text is tried first; where a number
/// is tried first, a text that writes a number is that number.
pub proof fn cells_are_read_as_tried(
    cell: &SqlCell,
    s: String,
    first: Value,
    simple: Value,
    number: Value,
    n: i64,
)
    requires
        cell.text == Some(s),
        call_ensures(try_get_as_string_first, (cell,), first),
        call_ensures(try_simple_conversion, (cell,), simple),
        call_ensures(try_parse_string_as_number, (cell,), number),
    ensures
        first@ == ValueView::Text(s@),
        cell.signed is None && cell.double is None ==> simple@ == ValueView::Text(s@),
        cell.signed == Some(n) && n >= 0 ==> simple@ == ValueView::Number(
            Number::PosInt(n as u64),
        ),
        cell.signed == Some(n) && n < 0 ==> simple@ == ValueView::Number(Number::NegInt(n)),
        number@ != ValueView::Null,
        !(number@ is Text),
{
}

} // verus!
