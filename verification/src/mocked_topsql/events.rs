//! Mocked events.
//!
//! Each event is given by its fields, in the order in which they are set. The
//! values that are random come in samples of a hundred.
use vstd::prelude::*;
use vstd::string::*;
use crate::mocked_topsql::samples::{PLAN_CONSTANT, SQL_CONSTANT};
use crate::random::{
    generate_random_bigint, generate_random_digest, generate_random_int, is_random_text,
};
use crate::system_tables::data_collector::utils::fields_view;
use crate::text::{append_decimal, decimal};
use crate::value::{first_item_counts, Number, Value, ValueView};

verus! {

/// The description of a column by its SQL type and by whether it may be null.
pub open spec fn column_description(sql_type: Seq<char>, nullable: bool) -> ValueView {
    ValueView::Object(
        seq![("mysql_type"@, ValueView::Text(sql_type)), ("is_nullable"@, ValueView::Bool(nullable))],
    )
}

/// The description of the columns of a table.
pub open spec fn table_description(columns: Seq<(Seq<char>, Seq<char>, bool)>) -> ValueView {
    ValueView::Object(
        columns.map_values(
            |c: (Seq<char>, Seq<char>, bool)| (c.0, column_description(c.1, c.2)),
        ),
    )
}

/// A text as what a field holds.
pub open spec fn text_field(path: Seq<char>, text: Seq<char>) -> (Seq<char>, ValueView) {
    (path, ValueView::Text(text))
}

/// An integer as what a field holds.
pub open spec fn int_field(path: Seq<char>, n: int) -> (Seq<char>, ValueView) {
    (path, ValueView::Number(Number::of_int(n)))
}

/// The fields that every event has: where it comes from, the time, and the columns
/// of its table.
pub open spec fn common_fields(
    table: Seq<char>,
    index: int,
    timestamp: Seq<char>,
    columns: Seq<(Seq<char>, Seq<char>, bool)>,
) -> Seq<(Seq<char>, ValueView)> {
    seq![
        text_field("_vector_table"@, table),
        text_field("_vector_source_table"@, table),
        text_field("_vector_source_schema"@, "test"@),
        text_field("_vector_instance"@, "127.0.0."@ + decimal(index as nat)),
        text_field("_vector_timestamp"@, timestamp),
        ("_schema_metadata"@, table_description(columns)),
    ]
}

fn add_value(fields: &mut Vec<(String, Value)>, path: &str, value: Value)
    ensures
        fields_view(final(fields)@) == fields_view(old(fields)@).push((path@, value@)),
{
    fields.push((path.to_string(), value));
    assert(fields_view(fields@) =~= fields_view(old(fields)@).push((path@, value@)));
}

fn add_text(fields: &mut Vec<(String, Value)>, path: &str, text: &str)
    ensures
        fields_view(final(fields)@) == fields_view(old(fields)@).push(text_field(path@, text@)),
{
    add_value(fields, path, Value::Text(text.to_string()));
}

fn add_int(fields: &mut Vec<(String, Value)>, path: &str, n: i64)
    ensures
        fields_view(final(fields)@) == fields_view(old(fields)@).push(int_field(path@, n as int)),
{
    add_value(fields, path, Value::Number(Number::from_i64(n)));
}

fn object_of(entries: Vec<(String, Value)>) -> (r: Value)
    ensures
        r@ == ValueView::Object(fields_view(entries@)),
{
    let ghost pairs = entries@;
    let r = Value::Object(entries);
    proof {
        reveal_with_fuel(Value::model, 2);
        assert(r@->Object_0 =~= fields_view(pairs));
    }
    r
}

fn add_column(columns: &mut Vec<(String, Value)>, name: &str, sql_type: &str, nullable: bool)
    ensures
        fields_view(final(columns)@) == fields_view(old(columns)@).push(
            (name@, column_description(sql_type@, nullable)),
        ),
{
    let mut entries: Vec<(String, Value)> = Vec::new();
    add_value(&mut entries, "mysql_type", Value::Text(sql_type.to_string()));
    add_value(&mut entries, "is_nullable", Value::Bool(nullable));
    assert(fields_view(entries@) =~= seq![
        ("mysql_type"@, ValueView::Text(sql_type@)),
        ("is_nullable"@, ValueView::Bool(nullable)),
    ]);
    add_value(columns, name, object_of(entries));
}

fn start_event(table: &str, index: usize, timestamp: &str, columns: Value) -> (r: Vec<
    (String, Value),
>)
    ensures
        fields_view(r@) == seq![
            text_field("_vector_table"@, table@),
            text_field("_vector_source_table"@, table@),
            text_field("_vector_source_schema"@, "test"@),
            text_field("_vector_instance"@, "127.0.0."@ + decimal(index as nat)),
            text_field("_vector_timestamp"@, timestamp@),
            ("_schema_metadata"@, columns@),
        ],
{
    let mut fields: Vec<(String, Value)> = Vec::new();
    let mut instance = "127.0.0.".to_string();
    append_decimal(&mut instance, index as u64);
    add_text(&mut fields, "_vector_table", table);
    add_text(&mut fields, "_vector_source_table", table);
    add_text(&mut fields, "_vector_source_schema", "test");
    add_text(&mut fields, "_vector_instance", instance.as_str());
    add_text(&mut fields, "_vector_timestamp", timestamp);
    add_value(&mut fields, "_schema_metadata", columns);
    assert(fields_view(fields@) =~= seq![
        text_field("_vector_table"@, table@),
        text_field("_vector_source_table"@, table@),
        text_field("_vector_source_schema"@, "test"@),
        text_field("_vector_instance"@, "127.0.0."@ + decimal(index as nat)),
        text_field("_vector_timestamp"@, timestamp@),
        ("_schema_metadata"@, columns@),
    ]);
    fields
}

/// The random values of the events about statements on TiDB instances.
pub struct TidbSample {
    pub sql_digest: Vec<String>,
    pub plan_digest: Vec<String>,
    pub cpu_time: Vec<i32>,
    pub exec_count: Vec<i64>,
    pub duration_sum: Vec<i64>,
    pub duration_count: Vec<i64>,
}

impl TidbSample {
    /// Whether there are a hundred of each value, and the digests have 64 letters
    /// and digits.
    pub open spec fn wf(self) -> bool {
        &&& self.sql_digest@.len() == 100
        &&& self.plan_digest@.len() == 100
        &&& self.cpu_time@.len() == 100
        &&& self.exec_count@.len() == 100
        &&& self.duration_sum@.len() == 100
        &&& self.duration_count@.len() == 100
        &&& forall|i: int|
            0 <= i < 100 ==> is_random_text((#[trigger] self.sql_digest@[i])@, 64)
        &&& forall|i: int|
            0 <= i < 100 ==> is_random_text((#[trigger] self.plan_digest@[i])@, 64)
    }

    fn draw() -> (r: Self)
        ensures
            r.wf(),
    {
        TidbSample {
            sql_digest: generate_random_digest(),
            plan_digest: generate_random_digest(),
            cpu_time: generate_random_int(),
            exec_count: generate_random_bigint(),
            duration_sum: generate_random_bigint(),
            duration_count: generate_random_bigint(),
        }
    }
}

/// The random values of the events about statements on TiKV instances.
pub struct TikvSample {
    pub sql_digest: Vec<String>,
    pub plan_digest: Vec<String>,
    pub cpu_time: Vec<i32>,
    pub read_keys: Vec<i32>,
    pub network_in: Vec<i64>,
    pub network_out: Vec<i64>,
    pub logical_read: Vec<i64>,
    pub logical_write: Vec<i64>,
}

impl TikvSample {
    /// Whether there are a hundred of each value, and the digests have 64 letters
    /// and digits.
    pub open spec fn wf(self) -> bool {
        &&& self.sql_digest@.len() == 100
        &&& self.plan_digest@.len() == 100
        &&& self.cpu_time@.len() == 100
        &&& self.read_keys@.len() == 100
        &&& self.network_in@.len() == 100
        &&& self.network_out@.len() == 100
        &&& self.logical_read@.len() == 100
        &&& self.logical_write@.len() == 100
        &&& forall|i: int|
            0 <= i < 100 ==> is_random_text((#[trigger] self.sql_digest@[i])@, 64)
        &&& forall|i: int|
            0 <= i < 100 ==> is_random_text((#[trigger] self.plan_digest@[i])@, 64)
    }

    fn draw() -> (r: Self)
        ensures
            r.wf(),
    {
        TikvSample {
            sql_digest: generate_random_digest(),
            plan_digest: generate_random_digest(),
            cpu_time: generate_random_int(),
            read_keys: generate_random_int(),
            network_in: generate_random_bigint(),
            network_out: generate_random_bigint(),
            logical_read: generate_random_bigint(),
            logical_write: generate_random_bigint(),
        }
    }
}

/// The random values of the events about regions.
pub struct RegionSample {
    pub region_id: Vec<i32>,
    pub cpu_time: Vec<i32>,
    pub read_keys: Vec<i32>,
    pub network_in: Vec<i64>,
    pub network_out: Vec<i64>,
    pub logical_read: Vec<i64>,
    pub logical_write: Vec<i64>,
}

impl RegionSample {
    /// Whether there are a hundred of each value.
    pub open spec fn wf(self) -> bool {
        &&& self.region_id@.len() == 100
        &&& self.cpu_time@.len() == 100
        &&& self.read_keys@.len() == 100
        &&& self.network_in@.len() == 100
        &&& self.network_out@.len() == 100
        &&& self.logical_read@.len() == 100
        &&& self.logical_write@.len() == 100
    }

    fn draw() -> (r: Self)
        ensures
            r.wf(),
    {
        RegionSample {
            region_id: generate_random_int(),
            cpu_time: generate_random_int(),
            read_keys: generate_random_int(),
            network_in: generate_random_bigint(),
            network_out: generate_random_bigint(),
            logical_read: generate_random_bigint(),
            logical_write: generate_random_bigint(),
        }
    }
}

/// The columns of the table `tidb_topsql`.
pub open spec fn tidb_columns() -> Seq<(Seq<char>, Seq<char>, bool)> {
    seq![
        ("sql_digest"@, "text"@, false),
        ("plan_digest"@, "text"@, false),
        ("sql"@, "text"@, false),
        ("plan"@, "text"@, false),
        ("cpu_time_ms"@, "int"@, false),
        ("stmt_exec_count"@, "bigint"@, true),
        ("stmt_duration_sum_ns"@, "bigint"@, true),
        ("stmt_duration_count"@, "bigint"@, true),
    ]
}

fn tidb_description() -> (r: Value)
    ensures
        r@ == table_description(tidb_columns()),
{
    let mut columns: Vec<(String, Value)> = Vec::new();
    add_column(&mut columns, "sql_digest", "text", false);
    add_column(&mut columns, "plan_digest", "text", false);
    add_column(&mut columns, "sql", "text", false);
    add_column(&mut columns, "plan", "text", false);
    add_column(&mut columns, "cpu_time_ms", "int", false);
    add_column(&mut columns, "stmt_exec_count", "bigint", true);
    add_column(&mut columns, "stmt_duration_sum_ns", "bigint", true);
    add_column(&mut columns, "stmt_duration_count", "bigint", true);
    assert(fields_view(columns@) =~= table_description(tidb_columns())->Object_0);
    object_of(columns)
}

/// The fields of an event about a statement on a TiDB instance.
pub open spec fn tidb_fields(sample: TidbSample, index: int, timestamp: Seq<char>) -> Seq<
    (Seq<char>, ValueView),
> {
    common_fields("tidb_topsql"@, index, timestamp, tidb_columns()) + seq![
        text_field("sql_digest"@, sample.sql_digest@[index]@),
        text_field("plan_digest"@, sample.plan_digest@[index]@),
        text_field("sql"@, SQL_CONSTANT@),
        text_field("plan"@, PLAN_CONSTANT@),
        int_field("cpu_time_ms"@, sample.cpu_time@[index] as int),
        int_field("stmt_exec_count"@, sample.exec_count@[index] as int),
        int_field("stmt_duration_sum_ns"@, sample.duration_sum@[index] as int),
        int_field("stmt_duration_count"@, sample.duration_count@[index] as int),
    ]
}

fn tidb_event(sample: &TidbSample, index: usize, timestamp: &str) -> (r: Vec<(String, Value)>)
    requires
        sample.wf(),
        index < 100,
    ensures
        fields_view(r@) == tidb_fields(*sample, index as int, timestamp@),
{
    let mut fields = start_event("tidb_topsql", index, timestamp, tidb_description());
    add_text(&mut fields, "sql_digest", sample.sql_digest[index].as_str());
    add_text(&mut fields, "plan_digest", sample.plan_digest[index].as_str());
    add_text(&mut fields, "sql", SQL_CONSTANT);
    add_text(&mut fields, "plan", PLAN_CONSTANT);
    add_int(&mut fields, "cpu_time_ms", sample.cpu_time[index] as i64);
    add_int(&mut fields, "stmt_exec_count", sample.exec_count[index]);
    add_int(&mut fields, "stmt_duration_sum_ns", sample.duration_sum[index]);
    add_int(&mut fields, "stmt_duration_count", sample.duration_count[index]);
    assert(fields_view(fields@) =~= tidb_fields(*sample, index as int, timestamp@));
    fields
}

/// Whether `events` are the events with the fields that `tidb_fields` gives, for the
/// whole sample.
pub open spec fn are_tidb_events(
    events: Seq<Vec<(String, Value)>>,
    sample: TidbSample,
    timestamp: Seq<char>,
) -> bool {
    &&& events.len() == 100
    &&& forall|i: int|
        0 <= i < 100 ==> fields_view((#[trigger] events[i])@) == tidb_fields(sample, i, timestamp)
}

/// For each value of the sample an event about a statement on a TiDB instance.
pub fn tidb_events(sample: &TidbSample, timestamp: &str) -> (r: Vec<Vec<(String, Value)>>)
    requires
        sample.wf(),
    ensures
        are_tidb_events(r@, *sample, timestamp@),
{
    let mut events: Vec<Vec<(String, Value)>> = Vec::new();
    let mut i: usize = 0;
    while i < 100
        invariant
            sample.wf(),
            i <= 100,
            events@.len() == i,
            forall|k: int|
                0 <= k < i ==> fields_view((#[trigger] events@[k])@) == tidb_fields(
                    *sample,
                    k,
                    timestamp@,
                ),
        decreases 100 - i,
    {
        events.push(tidb_event(sample, i, timestamp));
        i += 1;
    }
    events
}

/// The columns of the table `tikv_exec_count`.
pub open spec fn exec_count_columns() -> Seq<(Seq<char>, Seq<char>, bool)> {
    seq![
        ("sql_digest"@, "text"@, false),
        ("plan_digest"@, "text"@, false),
        ("sql"@, "text"@, false),
        ("plan"@, "text"@, false),
        ("stmt_exec_count"@, "bigint"@, true),
    ]
}

fn exec_count_description() -> (r: Value)
    ensures
        r@ == table_description(exec_count_columns()),
{
    let mut columns: Vec<(String, Value)> = Vec::new();
    add_column(&mut columns, "sql_digest", "text", false);
    add_column(&mut columns, "plan_digest", "text", false);
    add_column(&mut columns, "sql", "text", false);
    add_column(&mut columns, "plan", "text", false);
    add_column(&mut columns, "stmt_exec_count", "bigint", true);
    assert(fields_view(columns@) =~= table_description(exec_count_columns())->Object_0);
    object_of(columns)
}

/// The fields of an event about how often a statement was executed on a TiKV instance.
pub open spec fn exec_count_fields(sample: TidbSample, index: int, timestamp: Seq<char>) -> Seq<
    (Seq<char>, ValueView),
> {
    common_fields("tikv_exec_count"@, index, timestamp, exec_count_columns()) + seq![
        text_field("sql_digest"@, sample.sql_digest@[index]@),
        text_field("plan_digest"@, sample.plan_digest@[index]@),
        text_field("sql"@, SQL_CONSTANT@),
        text_field("plan"@, PLAN_CONSTANT@),
        int_field("stmt_exec_count"@, sample.exec_count@[index] as int),
    ]
}

fn exec_count_event(sample: &TidbSample, index: usize, timestamp: &str) -> (r: Vec<(String, Value)>)
    requires
        sample.wf(),
        index < 100,
    ensures
        fields_view(r@) == exec_count_fields(*sample, index as int, timestamp@),
{
    let mut fields = start_event("tikv_exec_count", index, timestamp, exec_count_description());
    add_text(&mut fields, "sql_digest", sample.sql_digest[index].as_str());
    add_text(&mut fields, "plan_digest", sample.plan_digest[index].as_str());
    add_text(&mut fields, "sql", SQL_CONSTANT);
    add_text(&mut fields, "plan", PLAN_CONSTANT);
    add_int(&mut fields, "stmt_exec_count", sample.exec_count[index]);
    assert(fields_view(fields@) =~= exec_count_fields(*sample, index as int, timestamp@));
    fields
}

/// Whether `events` are the events with the fields that `exec_count_fields` gives, for the
/// whole sample.
pub open spec fn are_exec_count_events(
    events: Seq<Vec<(String, Value)>>,
    sample: TidbSample,
    timestamp: Seq<char>,
) -> bool {
    &&& events.len() == 100
    &&& forall|i: int|
        0 <= i < 100 ==> fields_view((#[trigger] events[i])@) == exec_count_fields(sample, i, timestamp)
}

/// For each value of the sample an event about how often a statement was executed on a TiKV instance.
pub fn exec_count_events(sample: &TidbSample, timestamp: &str) -> (r: Vec<Vec<(String, Value)>>)
    requires
        sample.wf(),
    ensures
        are_exec_count_events(r@, *sample, timestamp@),
{
    let mut events: Vec<Vec<(String, Value)>> = Vec::new();
    let mut i: usize = 0;
    while i < 100
        invariant
            sample.wf(),
            i <= 100,
            events@.len() == i,
            forall|k: int|
                0 <= k < i ==> fields_view((#[trigger] events@[k])@) == exec_count_fields(
                    *sample,
                    k,
                    timestamp@,
                ),
        decreases 100 - i,
    {
        events.push(exec_count_event(sample, i, timestamp));
        i += 1;
    }
    events
}

/// The columns of the table `tikv_topsql`.
pub open spec fn tikv_columns() -> Seq<(Seq<char>, Seq<char>, bool)> {
    seq![
        ("sql_digest"@, "text"@, false),
        ("plan_digest"@, "text"@, false),
        ("sql"@, "text"@, false),
        ("plan"@, "text"@, false),
        ("cpu_time_ms"@, "int"@, false),
        ("read_keys"@, "int"@, false),
        ("write_keys"@, "int"@, false),
        ("network_in_bytes"@, "bigint"@, true),
        ("network_out_bytes"@, "bigint"@, true),
        ("logical_io_read_bytes"@, "bigint"@, true),
        ("logical_io_write_bytes"@, "bigint"@, true),
    ]
}

fn tikv_description() -> (r: Value)
    ensures
        r@ == table_description(tikv_columns()),
{
    let mut columns: Vec<(String, Value)> = Vec::new();
    add_column(&mut columns, "sql_digest", "text", false);
    add_column(&mut columns, "plan_digest", "text", false);
    add_column(&mut columns, "sql", "text", false);
    add_column(&mut columns, "plan", "text", false);
    add_column(&mut columns, "cpu_time_ms", "int", false);
    add_column(&mut columns, "read_keys", "int", false);
    add_column(&mut columns, "write_keys", "int", false);
    add_column(&mut columns, "network_in_bytes", "bigint", true);
    add_column(&mut columns, "network_out_bytes", "bigint", true);
    add_column(&mut columns, "logical_io_read_bytes", "bigint", true);
    add_column(&mut columns, "logical_io_write_bytes", "bigint", true);
    assert(fields_view(columns@) =~= table_description(tikv_columns())->Object_0);
    object_of(columns)
}

/// The fields of an event about a statement on a TiKV instance.
pub open spec fn tikv_fields(sample: TikvSample, index: int, timestamp: Seq<char>) -> Seq<
    (Seq<char>, ValueView),
> {
    common_fields("tikv_topsql"@, index, timestamp, tikv_columns()) + seq![
        text_field("sql_digest"@, sample.sql_digest@[index]@),
        text_field("plan_digest"@, sample.plan_digest@[index]@),
        text_field("sql"@, SQL_CONSTANT@),
        text_field("plan"@, PLAN_CONSTANT@),
        int_field("cpu_time_ms"@, sample.cpu_time@[index] as int),
        int_field("read_keys"@, sample.read_keys@[index] as int),
        int_field("write_keys"@, 0),
        int_field("network_in_bytes"@, sample.network_in@[index] as int),
        int_field("network_out_bytes"@, sample.network_out@[index] as int),
        int_field("logical_io_read_bytes"@, sample.logical_read@[index] as int),
        int_field("logical_io_write_bytes"@, sample.logical_write@[index] as int),
    ]
}

fn tikv_event(sample: &TikvSample, index: usize, timestamp: &str) -> (r: Vec<(String, Value)>)
    requires
        sample.wf(),
        index < 100,
    ensures
        fields_view(r@) == tikv_fields(*sample, index as int, timestamp@),
{
    let mut fields = start_event("tikv_topsql", index, timestamp, tikv_description());
    add_text(&mut fields, "sql_digest", sample.sql_digest[index].as_str());
    add_text(&mut fields, "plan_digest", sample.plan_digest[index].as_str());
    add_text(&mut fields, "sql", SQL_CONSTANT);
    add_text(&mut fields, "plan", PLAN_CONSTANT);
    add_int(&mut fields, "cpu_time_ms", sample.cpu_time[index] as i64);
    add_int(&mut fields, "read_keys", sample.read_keys[index] as i64);
    add_int(&mut fields, "write_keys", 0);
    add_int(&mut fields, "network_in_bytes", sample.network_in[index]);
    add_int(&mut fields, "network_out_bytes", sample.network_out[index]);
    add_int(&mut fields, "logical_io_read_bytes", sample.logical_read[index]);
    add_int(&mut fields, "logical_io_write_bytes", sample.logical_write[index]);
    assert(fields_view(fields@) =~= tikv_fields(*sample, index as int, timestamp@));
    fields
}

/// Whether `events` are the events with the fields that `tikv_fields` gives, for the
/// whole sample.
pub open spec fn are_tikv_events(
    events: Seq<Vec<(String, Value)>>,
    sample: TikvSample,
    timestamp: Seq<char>,
) -> bool {
    &&& events.len() == 100
    &&& forall|i: int|
        0 <= i < 100 ==> fields_view((#[trigger] events[i])@) == tikv_fields(sample, i, timestamp)
}

/// For each value of the sample an event about a statement on a TiKV instance.
pub fn tikv_events(sample: &TikvSample, timestamp: &str) -> (r: Vec<Vec<(String, Value)>>)
    requires
        sample.wf(),
    ensures
        are_tikv_events(r@, *sample, timestamp@),
{
    let mut events: Vec<Vec<(String, Value)>> = Vec::new();
    let mut i: usize = 0;
    while i < 100
        invariant
            sample.wf(),
            i <= 100,
            events@.len() == i,
            forall|k: int|
                0 <= k < i ==> fields_view((#[trigger] events@[k])@) == tikv_fields(
                    *sample,
                    k,
                    timestamp@,
                ),
        decreases 100 - i,
    {
        events.push(tikv_event(sample, i, timestamp));
        i += 1;
    }
    events
}

/// The columns of the table `top_region`.
pub open spec fn region_columns() -> Seq<(Seq<char>, Seq<char>, bool)> {
    seq![
        ("region_id"@, "bigint"@, false),
        ("cpu_time_ms"@, "int"@, false),
        ("read_keys"@, "int"@, false),
        ("write_keys"@, "int"@, false),
        ("network_in_bytes"@, "bigint"@, true),
        ("network_out_bytes"@, "bigint"@, true),
        ("logical_io_read_bytes"@, "bigint"@, true),
        ("logical_io_write_bytes"@, "bigint"@, true),
    ]
}

fn region_description() -> (r: Value)
    ensures
        r@ == table_description(region_columns()),
{
    let mut columns: Vec<(String, Value)> = Vec::new();
    add_column(&mut columns, "region_id", "bigint", false);
    add_column(&mut columns, "cpu_time_ms", "int", false);
    add_column(&mut columns, "read_keys", "int", false);
    add_column(&mut columns, "write_keys", "int", false);
    add_column(&mut columns, "network_in_bytes", "bigint", true);
    add_column(&mut columns, "network_out_bytes", "bigint", true);
    add_column(&mut columns, "logical_io_read_bytes", "bigint", true);
    add_column(&mut columns, "logical_io_write_bytes", "bigint", true);
    assert(fields_view(columns@) =~= table_description(region_columns())->Object_0);
    object_of(columns)
}

/// The fields of an event about a region.
pub open spec fn region_fields(sample: RegionSample, index: int, timestamp: Seq<char>) -> Seq<
    (Seq<char>, ValueView),
> {
    common_fields("top_region"@, index, timestamp, region_columns()) + seq![
        int_field("region_id"@, sample.region_id@[index] as int),
        int_field("cpu_time_ms"@, sample.cpu_time@[index] as int),
        int_field("read_keys"@, sample.read_keys@[index] as int),
        int_field("write_keys"@, 0),
        int_field("network_in_bytes"@, sample.network_in@[index] as int),
        int_field("network_out_bytes"@, sample.network_out@[index] as int),
        int_field("logical_io_read_bytes"@, sample.logical_read@[index] as int),
        int_field("logical_io_write_bytes"@, sample.logical_write@[index] as int),
    ]
}

fn region_event(sample: &RegionSample, index: usize, timestamp: &str) -> (r: Vec<(String, Value)>)
    requires
        sample.wf(),
        index < 100,
    ensures
        fields_view(r@) == region_fields(*sample, index as int, timestamp@),
{
    let mut fields = start_event("top_region", index, timestamp, region_description());
    add_int(&mut fields, "region_id", sample.region_id[index] as i64);
    add_int(&mut fields, "cpu_time_ms", sample.cpu_time[index] as i64);
    add_int(&mut fields, "read_keys", sample.read_keys[index] as i64);
    add_int(&mut fields, "write_keys", 0);
    add_int(&mut fields, "network_in_bytes", sample.network_in[index]);
    add_int(&mut fields, "network_out_bytes", sample.network_out[index]);
    add_int(&mut fields, "logical_io_read_bytes", sample.logical_read[index]);
    add_int(&mut fields, "logical_io_write_bytes", sample.logical_write[index]);
    assert(fields_view(fields@) =~= region_fields(*sample, index as int, timestamp@));
    fields
}

/// Whether `events` are the events with the fields that `region_fields` gives, for the
/// whole sample.
pub open spec fn are_region_events(
    events: Seq<Vec<(String, Value)>>,
    sample: RegionSample,
    timestamp: Seq<char>,
) -> bool {
    &&& events.len() == 100
    &&& forall|i: int|
        0 <= i < 100 ==> fields_view((#[trigger] events[i])@) == region_fields(sample, i, timestamp)
}

/// For each value of the sample an event about a region.
pub fn region_events(sample: &RegionSample, timestamp: &str) -> (r: Vec<Vec<(String, Value)>>)
    requires
        sample.wf(),
    ensures
        are_region_events(r@, *sample, timestamp@),
{
    let mut events: Vec<Vec<(String, Value)>> = Vec::new();
    let mut i: usize = 0;
    while i < 100
        invariant
            sample.wf(),
            i <= 100,
            events@.len() == i,
            forall|k: int|
                0 <= k < i ==> fields_view((#[trigger] events@[k])@) == region_fields(
                    *sample,
                    k,
                    timestamp@,
                ),
        decreases 100 - i,
    {
        events.push(region_event(sample, i, timestamp));
        i += 1;
    }
    events
}

/// A hundred random events about statements on TiDB instances, and for the same
/// statements the events about how often they were executed on TiKV instances.
pub fn create_event_for_tidb_sql(_index: usize, timestamp: &str) -> (r: (
    Vec<Vec<(String, Value)>>,
    Vec<Vec<(String, Value)>>,
))
    ensures
        exists|sample: TidbSample| #[trigger]
            sample.wf() && are_tidb_events(r.0@, sample, timestamp@) && are_exec_count_events(
                r.1@,
                sample,
                timestamp@,
            ),
{
    let sample = TidbSample::draw();
    let events = tidb_events(&sample, timestamp);
    let tikv_events = exec_count_events(&sample, timestamp);
    (events, tikv_events)
}

/// A hundred random events about statements on TiKV instances.
pub fn create_event_for_tikv_sql(_index: usize, timestamp: &str) -> (r: Vec<Vec<(String, Value)>>)
    ensures
        exists|sample: TikvSample| #[trigger]
            sample.wf() && are_tikv_events(r@, sample, timestamp@),
{
    let sample = TikvSample::draw();
    tikv_events(&sample, timestamp)
}

/// A hundred random events about regions.
pub fn create_event_for_tikv_region(_index: usize, timestamp: &str) -> (r: Vec<
    Vec<(String, Value)>,
>)
    ensures
        exists|sample: RegionSample| #[trigger]
            sample.wf() && are_region_events(r@, sample, timestamp@),
{
    let sample = RegionSample::draw();
    region_events(&sample, timestamp)
}

/// The paths of fields.
pub open spec fn paths(fields: Seq<(Seq<char>, ValueView)>) -> Seq<Seq<char>> {
    fields.map_values(|f: (Seq<char>, ValueView)| f.0)
}

/// The names of columns.
pub open spec fn column_names(columns: Seq<(Seq<char>, Seq<char>, bool)>) -> Seq<Seq<char>> {
    columns.map_values(|c: (Seq<char>, Seq<char>, bool)| c.0)
}

/// Every event has, behind the fields that tell where it comes from, one field for
/// each column that it describes, and no others.
pub proof fn described_columns_have_fields(
    tidb: TidbSample,
    tikv: TikvSample,
    region: RegionSample,
    index: int,
    timestamp: Seq<char>,
)
    ensures
        paths(tidb_fields(tidb, index, timestamp)).skip(6) == column_names(tidb_columns()),
        paths(exec_count_fields(tidb, index, timestamp)).skip(6) == column_names(
            exec_count_columns(),
        ),
        paths(tikv_fields(tikv, index, timestamp)).skip(6) == column_names(tikv_columns()),
        paths(region_fields(region, index, timestamp)).skip(6) == column_names(region_columns()),
{
    assert(paths(tidb_fields(tidb, index, timestamp)).skip(6) =~= column_names(tidb_columns()));
    assert(paths(exec_count_fields(tidb, index, timestamp)).skip(6) =~= column_names(
        exec_count_columns(),
    ));
    assert(paths(tikv_fields(tikv, index, timestamp)).skip(6) =~= column_names(tikv_columns()));
    assert(paths(region_fields(region, index, timestamp)).skip(6) =~= column_names(
        region_columns(),
    ));
}

/// An integer as a number of its own sign.
pub open spec fn number(n: int) -> ValueView {
    if n < 0 {
        ValueView::Number(Number::NegInt(n as i64))
    } else {
        ValueView::Number(Number::PosInt(n as u64))
    }
}

/// Every event tells its table, the schema `test`, an instance by its place in the
/// sample and the time, and describes the columns of its table.
pub proof fn mocked_events_tell_where_they_come_from(
    table: Seq<char>,
    index: int,
    timestamp: Seq<char>,
    columns: Seq<(Seq<char>, Seq<char>, bool)>,
)
    ensures
        ({
            let fields = common_fields(table, index, timestamp, columns);
            &&& fields.len() == 6
            &&& fields[0] == ("_vector_table"@, ValueView::Text(table))
            &&& fields[1] == ("_vector_source_table"@, ValueView::Text(table))
            &&& fields[2] == ("_vector_source_schema"@, ValueView::Text("test"@))
            &&& fields[3] == (
                "_vector_instance"@,
                ValueView::Text("127.0.0."@ + decimal(index as nat)),
            )
            &&& fields[4] == ("_vector_timestamp"@, ValueView::Text(timestamp))
            &&& fields[5].0 == "_schema_metadata"@ && fields[5].1 is Object
        }),
{
}

/// The description of a table has an item for each column, which tells its SQL type and
/// whether it may be null.
pub proof fn descriptions_tell_every_column(
    columns: Seq<(Seq<char>, Seq<char>, bool)>,
    j: int,
)
    requires
        0 <= j < columns.len(),
    ensures
        table_description(columns) matches ValueView::Object(items) && items.len() == columns.len()
            && items[j].0 == columns[j].0 && items[j].1.field("mysql_type"@) == Some(
            ValueView::Text(columns[j].1),
        ) && items[j].1.field("is_nullable"@) == Some(ValueView::Bool(columns[j].2)),
{
    reveal_strlit("mysql_type");
    reveal_strlit("is_nullable");
    assert("mysql_type"@.len() == 10 && "is_nullable"@.len() == 11);
    let items = column_description(columns[j].1, columns[j].2)->Object_0;
    first_item_counts(items, "mysql_type"@, 0);
    first_item_counts(items, "is_nullable"@, 1);
}

/// An event about a statement on a TiDB instance holds the values at its place
/// in the sample, each under its own name, and describes numbers as integers and all else
/// as texts.
pub proof fn tidb_events_hold_the_sample(
    sample: TidbSample,
    index: int,
    timestamp: Seq<char>,
    j: int,
)
    ensures
        ({
            let fields = tidb_fields(sample, index, timestamp);
            let columns = tidb_columns();
            &&& fields.len() == 6 + columns.len()
            &&& columns.len() == 8
            &&& fields[0] == ("_vector_table"@, ValueView::Text("tidb_topsql"@))
            &&& fields[6] == ("sql_digest"@, ValueView::Text(sample.sql_digest@[index]@))
            &&& fields[7] == ("plan_digest"@, ValueView::Text(sample.plan_digest@[index]@))
            &&& fields[8].0 == "sql"@ && fields[8].1 is Text
            &&& fields[9].0 == "plan"@ && fields[9].1 is Text
            &&& fields[10] == ("cpu_time_ms"@, number(sample.cpu_time@[index] as int))
            &&& fields[11] == ("stmt_exec_count"@, number(sample.exec_count@[index] as int))
            &&& fields[12] == ("stmt_duration_sum_ns"@, number(sample.duration_sum@[index] as int))
            &&& fields[13] == ("stmt_duration_count"@, number(sample.duration_count@[index] as int))
            &&& 0 <= j < columns.len() ==> columns[j].0 == fields[6 + j].0
            &&& 0 <= j < columns.len() && fields[6 + j].1 is Text ==> columns[j].1 == "text"@
            &&& 0 <= j < columns.len() && fields[6 + j].1 is Number ==> columns[j].1 == "int"@
                || columns[j].1 == "bigint"@
        }),
{
    let fields = tidb_fields(sample, index, timestamp);
    let columns = tidb_columns();
    if 0 <= j < columns.len() {
        assert(j == 0 || j == 1 || j == 2 || j == 3 || j == 4 || j == 5 || j == 6 || j == 7);
    }
}

/// An event about how often a statement was executed holds the values at its place
/// in the sample, each under its own name, and describes numbers as integers and all else
/// as texts.
pub proof fn exec_count_events_hold_the_sample(
    sample: TidbSample,
    index: int,
    timestamp: Seq<char>,
    j: int,
)
    ensures
        ({
            let fields = exec_count_fields(sample, index, timestamp);
            let columns = exec_count_columns();
            &&& fields.len() == 6 + columns.len()
            &&& columns.len() == 5
            &&& fields[0] == ("_vector_table"@, ValueView::Text("tikv_exec_count"@))
            &&& fields[6] == ("sql_digest"@, ValueView::Text(sample.sql_digest@[index]@))
            &&& fields[7] == ("plan_digest"@, ValueView::Text(sample.plan_digest@[index]@))
            &&& fields[8].0 == "sql"@ && fields[8].1 is Text
            &&& fields[9].0 == "plan"@ && fields[9].1 is Text
            &&& fields[10] == ("stmt_exec_count"@, number(sample.exec_count@[index] as int))
            &&& 0 <= j < columns.len() ==> columns[j].0 == fields[6 + j].0
            &&& 0 <= j < columns.len() && fields[6 + j].1 is Text ==> columns[j].1 == "text"@
            &&& 0 <= j < columns.len() && fields[6 + j].1 is Number ==> columns[j].1 == "int"@
                || columns[j].1 == "bigint"@
        }),
{
    let fields = exec_count_fields(sample, index, timestamp);
    let columns = exec_count_columns();
    if 0 <= j < columns.len() {
        assert(j == 0 || j == 1 || j == 2 || j == 3 || j == 4);
    }
}

/// An event about a statement on a TiKV instance holds the values at its place
/// in the sample, each under its own name, and describes numbers as integers and all else
/// as texts.
pub proof fn tikv_events_hold_the_sample(
    sample: TikvSample,
    index: int,
    timestamp: Seq<char>,
    j: int,
)
    ensures
        ({
            let fields = tikv_fields(sample, index, timestamp);
            let columns = tikv_columns();
            &&& fields.len() == 6 + columns.len()
            &&& columns.len() == 11
            &&& fields[0] == ("_vector_table"@, ValueView::Text("tikv_topsql"@))
            &&& fields[6] == ("sql_digest"@, ValueView::Text(sample.sql_digest@[index]@))
            &&& fields[7] == ("plan_digest"@, ValueView::Text(sample.plan_digest@[index]@))
            &&& fields[8].0 == "sql"@ && fields[8].1 is Text
            &&& fields[9].0 == "plan"@ && fields[9].1 is Text
            &&& fields[10] == ("cpu_time_ms"@, number(sample.cpu_time@[index] as int))
            &&& fields[11] == ("read_keys"@, number(sample.read_keys@[index] as int))
            &&& fields[12] == ("write_keys"@, number(0))
            &&& fields[13] == ("network_in_bytes"@, number(sample.network_in@[index] as int))
            &&& fields[14] == ("network_out_bytes"@, number(sample.network_out@[index] as int))
            &&& fields[15] == ("logical_io_read_bytes"@, number(sample.logical_read@[index] as int))
            &&& fields[16] == ("logical_io_write_bytes"@, number(sample.logical_write@[index] as int))
            &&& 0 <= j < columns.len() ==> columns[j].0 == fields[6 + j].0
            &&& 0 <= j < columns.len() && fields[6 + j].1 is Text ==> columns[j].1 == "text"@
            &&& 0 <= j < columns.len() && fields[6 + j].1 is Number ==> columns[j].1 == "int"@
                || columns[j].1 == "bigint"@
        }),
{
    let fields = tikv_fields(sample, index, timestamp);
    let columns = tikv_columns();
    if 0 <= j < columns.len() {
        assert(j == 0 || j == 1 || j == 2 || j == 3 || j == 4 || j == 5 || j == 6 || j == 7
            || j == 8 || j == 9 || j == 10);
    }
}

/// An event about a region holds the values at its place
/// in the sample, each under its own name, and describes numbers as integers and all else
/// as texts.
pub proof fn region_events_hold_the_sample(
    sample: RegionSample,
    index: int,
    timestamp: Seq<char>,
    j: int,
)
    ensures
        ({
            let fields = region_fields(sample, index, timestamp);
            let columns = region_columns();
            &&& fields.len() == 6 + columns.len()
            &&& columns.len() == 8
            &&& fields[0] == ("_vector_table"@, ValueView::Text("top_region"@))
            &&& fields[6] == ("region_id"@, number(sample.region_id@[index] as int))
            &&& fields[7] == ("cpu_time_ms"@, number(sample.cpu_time@[index] as int))
            &&& fields[8] == ("read_keys"@, number(sample.read_keys@[index] as int))
            &&& fields[9] == ("write_keys"@, number(0))
            &&& fields[10] == ("network_in_bytes"@, number(sample.network_in@[index] as int))
            &&& fields[11] == ("network_out_bytes"@, number(sample.network_out@[index] as int))
            &&& fields[12] == ("logical_io_read_bytes"@, number(sample.logical_read@[index] as int))
            &&& fields[13] == ("logical_io_write_bytes"@, number(sample.logical_write@[index] as int))
            &&& 0 <= j < columns.len() ==> columns[j].0 == fields[6 + j].0
            &&& 0 <= j < columns.len() && fields[6 + j].1 is Text ==> columns[j].1 == "text"@
            &&& 0 <= j < columns.len() && fields[6 + j].1 is Number ==> columns[j].1 == "int"@
                || columns[j].1 == "bigint"@
        }),
{
    let fields = region_fields(sample, index, timestamp);
    let columns = region_columns();
    if 0 <= j < columns.len() {
        assert(j == 0 || j == 1 || j == 2 || j == 3 || j == 4 || j == 5 || j == 6 || j == 7);
    }
}

/// There is one event for each value of a sample, in the order of the sample.
pub proof fn each_value_has_its_event(
    events: Seq<Vec<(String, Value)>>,
    timestamp: Seq<char>,
    tidb: TidbSample,
    tikv: TikvSample,
    region: RegionSample,
    i: int,
)
    ensures
        tidb.wf() && are_tidb_events(events, tidb, timestamp) ==> events.len()
            == tidb.sql_digest@.len() && (0 <= i < events.len() ==> fields_view(events[i]@)
            == tidb_fields(tidb, i, timestamp)),
        tidb.wf() && are_exec_count_events(events, tidb, timestamp) ==> events.len()
            == tidb.sql_digest@.len() && (0 <= i < events.len() ==> fields_view(events[i]@)
            == exec_count_fields(tidb, i, timestamp)),
        tikv.wf() && are_tikv_events(events, tikv, timestamp) ==> events.len()
            == tikv.sql_digest@.len() && (0 <= i < events.len() ==> fields_view(events[i]@)
            == tikv_fields(tikv, i, timestamp)),
        region.wf() && are_region_events(events, region, timestamp) ==> events.len()
            == region.region_id@.len() && (0 <= i < events.len() ==> fields_view(events[i]@)
            == region_fields(region, i, timestamp)),
{
}

/// A sample has a hundred of each value, and its digests have 64 letters and digits.
pub proof fn samples_have_a_hundred_values(
    tidb: TidbSample,
    tikv: TikvSample,
    region: RegionSample,
    i: int,
)
    ensures
        tidb.wf() ==> tidb.sql_digest@.len() == 100 && tidb.plan_digest@.len() == 100
            && tidb.cpu_time@.len() == 100 && tidb.exec_count@.len() == 100
            && tidb.duration_sum@.len() == 100 && tidb.duration_count@.len() == 100,
        tikv.wf() ==> tikv.sql_digest@.len() == 100 && tikv.plan_digest@.len() == 100
            && tikv.cpu_time@.len() == 100 && tikv.read_keys@.len() == 100
            && tikv.network_in@.len() == 100 && tikv.network_out@.len() == 100
            && tikv.logical_read@.len() == 100 && tikv.logical_write@.len() == 100,
        region.wf() ==> region.region_id@.len() == 100 && region.cpu_time@.len() == 100
            && region.read_keys@.len() == 100 && region.network_in@.len() == 100
            && region.network_out@.len() == 100 && region.logical_read@.len() == 100
            && region.logical_write@.len() == 100,
        tidb.wf() && 0 <= i < 100 ==> tidb.sql_digest@[i]@.len() == 64
            && tidb.plan_digest@[i]@.len() == 64,
        tikv.wf() && 0 <= i < 100 ==> tikv.sql_digest@[i]@.len() == 64
            && tikv.plan_digest@[i]@.len() == 64,
{
    if tidb.wf() && 0 <= i < 100 {
        assert(is_random_text(tidb.sql_digest@[i]@, 64));
        assert(is_random_text(tidb.plan_digest@[i]@, 64));
    }
    if tikv.wf() && 0 <= i < 100 {
        assert(is_random_text(tikv.sql_digest@[i]@, 64));
        assert(is_random_text(tikv.plan_digest@[i]@, 64));
    }
}

/// Whether a column with this name holds a text.
pub open spec fn names_a_text(name: Seq<char>) -> bool {
    name == "sql_digest"@ || name == "plan_digest"@ || name == "sql"@ || name == "plan"@
}

/// Whether a column with this name holds an integer of 32 bits.
pub open spec fn names_a_narrow_integer(name: Seq<char>) -> bool {
    name == "cpu_time_ms"@ || name == "read_keys"@ || name == "write_keys"@
}

/// Whether a column is described by what it holds: a text, a narrow integer, or else a
/// wide one. A wide integer may be absent, unless it is the number of a region.
pub open spec fn is_described(column: (Seq<char>, Seq<char>, bool)) -> bool {
    if names_a_text(column.0) {
        column.1 == "text"@ && !column.2
    } else if names_a_narrow_integer(column.0) {
        column.1 == "int"@ && !column.2
    } else {
        column.1 == "bigint"@ && column.2 == (column.0 != "region_id"@)
    }
}

proof fn lemma_long_name(name: Seq<char>)
    requires
        name.len() >= 15,
    ensures
        !names_a_text(name),
        !names_a_narrow_integer(name),
        name != "region_id"@,
{
    reveal_strlit("sql_digest");
    reveal_strlit("plan_digest");
    reveal_strlit("sql");
    reveal_strlit("plan");
    reveal_strlit("cpu_time_ms");
    reveal_strlit("read_keys");
    reveal_strlit("write_keys");
    reveal_strlit("region_id");
}

proof fn lemma_described_names()
    ensures
        !names_a_text("cpu_time_ms"@) && !names_a_text("read_keys"@) && !names_a_text(
            "write_keys"@,
        ),
        !names_a_text("region_id"@) && !names_a_narrow_integer("region_id"@),
        !names_a_text("stmt_exec_count"@) && !names_a_narrow_integer("stmt_exec_count"@)
            && "stmt_exec_count"@ != "region_id"@,
        !names_a_text("stmt_duration_sum_ns"@) && !names_a_narrow_integer("stmt_duration_sum_ns"@)
            && "stmt_duration_sum_ns"@ != "region_id"@,
        !names_a_text("stmt_duration_count"@) && !names_a_narrow_integer("stmt_duration_count"@)
            && "stmt_duration_count"@ != "region_id"@,
        !names_a_text("network_in_bytes"@) && !names_a_narrow_integer("network_in_bytes"@)
            && "network_in_bytes"@ != "region_id"@,
        !names_a_text("network_out_bytes"@) && !names_a_narrow_integer("network_out_bytes"@)
            && "network_out_bytes"@ != "region_id"@,
        !names_a_text("logical_io_read_bytes"@) && !names_a_narrow_integer("logical_io_read_bytes"@)
            && "logical_io_read_bytes"@ != "region_id"@,
        !names_a_text("logical_io_write_bytes"@) && !names_a_narrow_integer("logical_io_write_bytes"@)
            && "logical_io_write_bytes"@ != "region_id"@,
{
    reveal_strlit("sql_digest");
    reveal_strlit("plan_digest");
    reveal_strlit("sql");
    reveal_strlit("plan");
    reveal_strlit("cpu_time_ms");
    reveal_strlit("read_keys");
    reveal_strlit("write_keys");
    reveal_strlit("region_id");
    assert("read_keys"@[2] == 'a' && "region_id"@[2] == 'g');
    assert("write_keys"@[0] == 'w' && "sql_digest"@[0] == 's');
    assert("cpu_time_ms"@[0] == 'c' && "plan_digest"@[0] == 'p');
    assert("cpu_time_ms"@ != "plan_digest"@ && "write_keys"@ != "sql_digest"@);
    assert("cpu_time_ms"@.len() == 11 && "read_keys"@.len() == 9 && "write_keys"@.len() == 10);
    assert("sql_digest"@.len() == 10 && "plan_digest"@.len() == 11);
    assert("sql"@.len() == 3 && "plan"@.len() == 4);
    reveal_strlit("stmt_exec_count");
    lemma_long_name("stmt_exec_count"@);
    reveal_strlit("stmt_duration_sum_ns");
    lemma_long_name("stmt_duration_sum_ns"@);
    reveal_strlit("stmt_duration_count");
    lemma_long_name("stmt_duration_count"@);
    reveal_strlit("network_in_bytes");
    lemma_long_name("network_in_bytes"@);
    reveal_strlit("network_out_bytes");
    lemma_long_name("network_out_bytes"@);
    reveal_strlit("logical_io_read_bytes");
    lemma_long_name("logical_io_read_bytes"@);
    reveal_strlit("logical_io_write_bytes");
    lemma_long_name("logical_io_write_bytes"@);
}

/// Every column of every table is described by what it holds, so that tables which share
/// a column describe it alike.
pub proof fn columns_are_described_by_what_they_hold(k: int)
    ensures
        0 <= k < tidb_columns().len() ==> is_described(tidb_columns()[k]),
        0 <= k < exec_count_columns().len() ==> is_described(exec_count_columns()[k]),
        0 <= k < tikv_columns().len() ==> is_described(tikv_columns()[k]),
        0 <= k < region_columns().len() ==> is_described(region_columns()[k]),
{
    lemma_described_names();
    let tidb = tidb_columns();
    assert(tidb[0] == ("sql_digest"@, "text"@, false));
    assert(tidb[1] == ("plan_digest"@, "text"@, false));
    assert(tidb[2] == ("sql"@, "text"@, false));
    assert(tidb[3] == ("plan"@, "text"@, false));
    assert(tidb[4] == ("cpu_time_ms"@, "int"@, false));
    assert(tidb[5] == ("stmt_exec_count"@, "bigint"@, true));
    assert(tidb[6] == ("stmt_duration_sum_ns"@, "bigint"@, true));
    assert(tidb[7] == ("stmt_duration_count"@, "bigint"@, true));
    let exec_count = exec_count_columns();
    assert(exec_count[0] == ("sql_digest"@, "text"@, false));
    assert(exec_count[1] == ("plan_digest"@, "text"@, false));
    assert(exec_count[2] == ("sql"@, "text"@, false));
    assert(exec_count[3] == ("plan"@, "text"@, false));
    assert(exec_count[4] == ("stmt_exec_count"@, "bigint"@, true));
    let tikv = tikv_columns();
    assert(tikv[0] == ("sql_digest"@, "text"@, false));
    assert(tikv[1] == ("plan_digest"@, "text"@, false));
    assert(tikv[2] == ("sql"@, "text"@, false));
    assert(tikv[3] == ("plan"@, "text"@, false));
    assert(tikv[4] == ("cpu_time_ms"@, "int"@, false));
    assert(tikv[5] == ("read_keys"@, "int"@, false));
    assert(tikv[6] == ("write_keys"@, "int"@, false));
    assert(tikv[7] == ("network_in_bytes"@, "bigint"@, true));
    assert(tikv[8] == ("network_out_bytes"@, "bigint"@, true));
    assert(tikv[9] == ("logical_io_read_bytes"@, "bigint"@, true));
    assert(tikv[10] == ("logical_io_write_bytes"@, "bigint"@, true));
    let region = region_columns();
    assert(region[0] == ("region_id"@, "bigint"@, false));
    assert(region[1] == ("cpu_time_ms"@, "int"@, false));
    assert(region[2] == ("read_keys"@, "int"@, false));
    assert(region[3] == ("write_keys"@, "int"@, false));
    assert(region[4] == ("network_in_bytes"@, "bigint"@, true));
    assert(region[5] == ("network_out_bytes"@, "bigint"@, true));
    assert(region[6] == ("logical_io_read_bytes"@, "bigint"@, true));
    assert(region[7] == ("logical_io_write_bytes"@, "bigint"@, true));
    assert(0 <= k < 11 ==> k == 0 || k == 1 || k == 2 || k == 3 || k == 4 || k == 5 || k == 6 || k
        == 7 || k == 8 || k == 9 || k == 10);
}

} // verus!
