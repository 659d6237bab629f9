//! The request for the rows of a table.
use vstd::prelude::*;
use vstd::string::*;
use crate::bytes::{be_bytes, be_value, be_word};
use crate::system_tables::coprocessor::columns::{TableColumn, TableSchema};
use crate::system_tables::data_collector::{CollectionError, CollectionErrorView};
use crate::text::{append_signed, signed_decimal};

verus! {

/// What an executor does.
#[derive(Debug, Clone, Copy, PartialEq, Eq, Structural)]
pub enum ExecType {
    TypeTableScan,
}

/// How rows are encoded in a response.
#[derive(Debug, Clone, Copy, PartialEq, Eq, Structural)]
pub enum EncodeType {
    TypeDefault,
}

/// The order of bytes in a chunk.
#[derive(Debug, Clone, Copy, PartialEq, Eq, Structural)]
pub enum Endian {
    LittleEndian,
}

/// A column to scan.
#[derive(Debug, Clone, Copy, PartialEq, Eq, Structural)]
pub struct ColumnInfo {
    pub column_id: i64,
    pub tp: i32,
}

/// The scan of a table.
#[derive(Debug, PartialEq)]
pub struct TableScan {
    pub table_id: i64,
    pub columns: Vec<ColumnInfo>,
    pub desc: bool,
}

/// One step of a plan. Only a table scan is ever asked for.
#[derive(Debug, PartialEq)]
pub struct Executor {
    pub tp: ExecType,
    pub tbl_scan: TableScan,
    pub executor_id: String,
}

/// For whom a plan is executed.
#[derive(Debug, PartialEq)]
pub struct UserIdentity {
    pub user_name: String,
    pub user_host: String,
}

/// The plan by which the rows are read.
#[derive(Debug, PartialEq)]
pub struct DagRequest {
    pub start_ts_fallback: u64,
    pub executors: Vec<Executor>,
    pub time_zone_offset: i64,
    pub flags: u64,
    pub output_offsets: Vec<u32>,
    pub collect_range_counts: bool,
    pub max_warning_count: u64,
    pub encode_type: EncodeType,
    pub sql_mode: u64,
    pub time_zone_name: String,
    pub collect_execution_summaries: bool,
    pub max_allowed_packet: u64,
    pub endian: Endian,
    pub is_rpn_expr: bool,
    pub user: UserIdentity,
    pub force_encode_type: bool,
    pub div_precision_increment: u32,
}

/// The keys from `start` on, up to and without `end`.
#[derive(Debug, PartialEq)]
pub struct KeyRange {
    pub start: Vec<u8>,
    pub end: Vec<u8>,
}

/// The place in the cluster that a request is for, and where it comes from.
#[derive(Debug, PartialEq)]
pub struct Context {
    pub region_id: u64,
    pub region_conf_ver: u64,
    pub region_version: u64,
    pub peer_id: u64,
    pub peer_store_id: u64,
    pub source_connection_id: u64,
    pub source_session_alias: String,
}

/// A request to the coprocessor.
#[derive(Debug, PartialEq)]
pub struct CoprocessorRequest {
    pub context: Context,
    pub tp: i64,
    pub data: Vec<u8>,
    pub ranges: Vec<KeyRange>,
    pub is_cache_enabled: bool,
    pub cache_if_match_version: u64,
    pub start_ts: u64,
    pub schema_ver: i64,
    pub is_trace_enabled: bool,
    pub paging_size: u64,
    pub connection_id: u64,
    pub connection_alias: String,
}

/// The scan columns for the columns of a table.
pub open spec fn scan_columns(columns: Seq<TableColumn>) -> Seq<ColumnInfo> {
    columns.map_values(|c: TableColumn| ColumnInfo { column_id: c.id, tp: c.tp })
}

impl DagRequest {
    /// Whether the plan reads the columns of `schema`, all and in order, in one
    /// table scan.
    pub open spec fn scans(self, schema: TableSchema) -> bool {
        &&& self.executors@.len() == 1
        &&& self.executors@[0].tp == ExecType::TypeTableScan
        &&& self.executors@[0].tbl_scan.table_id == schema.id
        &&& self.executors@[0].tbl_scan.columns@ == scan_columns(schema.columns@)
        &&& !self.executors@[0].tbl_scan.desc
        &&& self.executors@[0].executor_id@ == "table_scan_"@ + signed_decimal(schema.id as int)
        &&& self.output_offsets@ == Seq::new(
            schema.columns@.len() % 0x1_0000_0000,
            |i: int| i as u32,
        )
    }

    /// Whether the plan has the settings that do not depend on the table.
    pub open spec fn has_standard_settings(self) -> bool {
        &&& self.start_ts_fallback == 0
        &&& self.time_zone_offset == 28800
        &&& self.flags == 0
        &&& !self.collect_range_counts
        &&& self.max_warning_count == 0
        &&& self.encode_type == EncodeType::TypeDefault
        &&& self.sql_mode == 0
        &&& self.time_zone_name@ == "Asia/Shanghai"@
        &&& self.collect_execution_summaries
        &&& self.max_allowed_packet == 16 * 1024 * 1024
        &&& self.endian == Endian::LittleEndian
        &&& !self.is_rpn_expr
        &&& self.user.user_name@ == "root"@
        &&& self.user.user_host@ == "%"@
        &&& !self.force_encode_type
        &&& self.div_precision_increment == 4
    }
}

/// The error for a table of which no columns are known.
pub open spec fn no_columns_error(id: i64) -> CollectionErrorView {
    CollectionErrorView::ConfigurationError(
        "No schema information available for table_id "@ + signed_decimal(id as int)
            + ". Schema is required for coprocessor requests."@,
    )
}

/// The plan by which the rows of a table are read.
pub fn build_dag_request(table_schema: &TableSchema) -> (r: Result<DagRequest, CollectionError>)
    ensures
        match r {
            Ok(dag) => table_schema.columns@.len() > 0 && dag.scans(*table_schema)
                && dag.has_standard_settings(),
            Err(e) => table_schema.columns@.len() == 0 && e@ == no_columns_error(table_schema.id),
        },
{
    if table_schema.columns.len() == 0 {
        let mut message = "No schema information available for table_id ".to_string();
        append_signed(&mut message, table_schema.id);
        message.append(". Schema is required for coprocessor requests.");
        return Err(CollectionError::ConfigurationError(message));
    }
    let mut columns: Vec<ColumnInfo> = Vec::new();
    let mut i: usize = 0;
    while i < table_schema.columns.len()
        invariant
            i <= table_schema.columns@.len(),
            columns@ == scan_columns(table_schema.columns@).take(i as int),
        decreases table_schema.columns@.len() - i,
    {
        let c = &table_schema.columns[i];
        columns.push(ColumnInfo { column_id: c.id, tp: c.tp });
        i += 1;
        assert(columns@ =~= scan_columns(table_schema.columns@).take(i as int));
    }
    assert(columns@ =~= scan_columns(table_schema.columns@));
    let count: u32 = (table_schema.columns.len() as u64 % 0x1_0000_0000) as u32;
    let mut output_offsets: Vec<u32> = Vec::new();
    let mut j: u32 = 0;
    while j < count
        invariant
            j <= count,
            output_offsets@ == Seq::new(j as nat, |k: int| k as u32),
        decreases count - j,
    {
        output_offsets.push(j);
        j += 1;
        assert(output_offsets@ =~= Seq::new(j as nat, |k: int| k as u32));
    }
    let mut executor_id = "table_scan_".to_string();
    append_signed(&mut executor_id, table_schema.id);
    let mut executors: Vec<Executor> = Vec::new();
    executors.push(
        Executor {
            tp: ExecType::TypeTableScan,
            tbl_scan: TableScan { table_id: table_schema.id, columns, desc: false },
            executor_id,
        },
    );
    Ok(
        DagRequest {
            start_ts_fallback: 0,
            executors,
            time_zone_offset: 28800,
            flags: 0,
            output_offsets,
            collect_range_counts: false,
            max_warning_count: 0,
            encode_type: EncodeType::TypeDefault,
            sql_mode: 0,
            time_zone_name: "Asia/Shanghai".to_string(),
            collect_execution_summaries: true,
            max_allowed_packet: 0x100_0000,
            endian: Endian::LittleEndian,
            is_rpn_expr: false,
            user: UserIdentity { user_name: "root".to_string(), user_host: "%".to_string() },
            force_encode_type: false,
            div_precision_increment: 4,
        },
    )
}

/// The beginning of all keys of the table with this id: the letter `t` and the id
/// in eight bytes, shifted so that no id is negative.
pub open spec fn table_key(id: int) -> Seq<u8> {
    seq![0x74u8] + be_bytes((id + 0x8000_0000_0000_0000) as nat, 8)
}

fn key_of(shifted: u64) -> (r: Vec<u8>)
    ensures
        r@ == table_key(shifted - 0x8000_0000_0000_0000),
{
    let mut key: Vec<u8> = Vec::new();
    key.push(0x74);
    let mut word = be_word(shifted);
    key.append(&mut word);
    assert(key@ =~= table_key(shifted - 0x8000_0000_0000_0000));
    key
}

impl CoprocessorRequest {
    /// Whether the request has the settings that do not depend on the table.
    pub open spec fn has_standard_settings(self) -> bool {
        &&& self.context.region_id == 1
        &&& self.context.region_conf_ver == 1
        &&& self.context.region_version == 1
        &&& self.context.peer_id == 1
        &&& self.context.peer_store_id == 1
        &&& self.context.source_connection_id == 12345
        &&& self.context.source_session_alias@ == "cluster_statements_summary_client"@
        &&& self.tp == 103
        &&& !self.is_cache_enabled
        &&& self.cache_if_match_version == 0
        &&& self.schema_ver == 0
        &&& !self.is_trace_enabled
        &&& self.paging_size == 0
        &&& self.connection_id == 12345
        &&& self.connection_alias@ == "cluster_statements_summary_client"@
    }
}

/// Build coprocessor request for the given table schema. `data` is the encoded
/// plan, and `start_ts` the current time in seconds.
pub fn build_coprocessor_request(table_schema: &TableSchema, data: Vec<u8>, start_ts: u64) -> (r:
    CoprocessorRequest)
    requires
        table_schema.id < i64::MAX,
    ensures
        r.has_standard_settings(),
        r.data == data,
        r.start_ts == start_ts,
        r.ranges@.len() == 1,
        r.ranges@[0].start@ == table_key(table_schema.id as int),
        r.ranges@[0].end@ == table_key(table_schema.id + 1),
{
    let shifted: u64 = (table_schema.id as i128 + 0x8000_0000_0000_0000i128) as u64;
    let mut ranges: Vec<KeyRange> = Vec::new();
    ranges.push(KeyRange { start: key_of(shifted), end: key_of(shifted + 1) });
    CoprocessorRequest {
        context: Context {
            region_id: 1,
            region_conf_ver: 1,
            region_version: 1,
            peer_id: 1,
            peer_store_id: 1,
            source_connection_id: 12345,
            source_session_alias: "cluster_statements_summary_client".to_string(),
        },
        tp: 103,
        data,
        ranges,
        is_cache_enabled: false,
        cache_if_match_version: 0,
        start_ts,
        schema_ver: 0,
        is_trace_enabled: false,
        paging_size: 0,
        connection_id: 12345,
        connection_alias: "cluster_statements_summary_client".to_string(),
    }
}

/// Whether the key `a` stands before the key `b`: at the first position where they
/// differ it has the lower byte, or it ends there.
pub open spec fn precedes(a: Seq<u8>, b: Seq<u8>) -> bool {
    exists|i: int| first_difference(a, b, i)
}

/// Whether `a` and `b` agree up to `i`, and `a` is lower there or ends there.
pub open spec fn first_difference(a: Seq<u8>, b: Seq<u8>, i: int) -> bool {
    &&& 0 <= i <= a.len()
    &&& i < b.len()
    &&& (forall|k: int| 0 <= k < i ==> a[k] == b[k])
    &&& (i == a.len() || a[i] < b[i])
}

/// Whether `key` is in the range from `start` up to and without `end`.
pub open spec fn in_range(key: Seq<u8>, start: Seq<u8>, end: Seq<u8>) -> bool {
    !precedes(key, start) && precedes(key, end)
}

proof fn lemma_be_length(n: nat, width: nat)
    ensures
        be_bytes(n, width).len() == width,
    decreases width,
{
    if width > 0 {
        lemma_be_length(n / 256, (width - 1) as nat);
    }
}

proof fn lemma_be_order(n: nat, m: nat, width: nat) -> (i: int)
    requires
        n < m,
        m < vstd::arithmetic::power::pow(256, width),
    ensures
        0 <= i < width,
        be_bytes(n, width).len() == width,
        be_bytes(m, width).len() == width,
        forall|k: int| 0 <= k < i ==> be_bytes(n, width)[k] == be_bytes(m, width)[k],
        be_bytes(n, width)[i] < be_bytes(m, width)[i],
    decreases width,
{
    lemma_be_length(n, width);
    lemma_be_length(m, width);
    vstd::arithmetic::power::lemma_pow0(256);
    let less = (width - 1) as nat;
    lemma_be_length(n / 256, less);
    lemma_be_length(m / 256, less);
    reveal(vstd::arithmetic::power::pow);
    assert(m / 256 < vstd::arithmetic::power::pow(256, less));
    if n / 256 < m / 256 {
        lemma_be_order(n / 256, m / 256, less)
    } else {
        less as int
    }
}

/// The position at which the key of the table with the lower id is lower.
proof fn lemma_key_order(low: int, high: int) -> (i: int)
    requires
        i64::MIN <= low < high <= i64::MAX,
    ensures
        0 <= i < 9,
        table_key(low).len() == 9,
        table_key(high).len() == 9,
        forall|k: int| 0 <= k < i ==> table_key(low)[k] == table_key(high)[k],
        table_key(low)[i] < table_key(high)[i],
{
    assert(vstd::arithmetic::power::pow(256, 8) == 0x1_0000_0000_0000_0000) by {
        reveal_with_fuel(vstd::arithmetic::power::pow, 10);
    }
    let n = (low + 0x8000_0000_0000_0000) as nat;
    let m = (high + 0x8000_0000_0000_0000) as nat;
    let at = lemma_be_order(n, m, 8);
    let i = at + 1;
    assert(table_key(low)[i] == be_bytes(n, 8)[at]);
    assert(table_key(high)[i] == be_bytes(m, 8)[at]);
    assert forall|k: int| 0 <= k < i implies table_key(low)[k] == table_key(high)[k] by {
        if k > 0 {
            assert(table_key(low)[k] == be_bytes(n, 8)[k - 1]);
            assert(table_key(high)[k] == be_bytes(m, 8)[k - 1]);
        }
    }
    i
}

/// Keys keep the order of table ids, the negative ones among them.
pub proof fn keys_keep_order_of_ids(low: int, high: int)
    requires
        i64::MIN <= low < high <= i64::MAX,
    ensures
        precedes(table_key(low), table_key(high)),
        !precedes(table_key(high), table_key(low)),
{
    let i = lemma_key_order(low, high);
    assert(first_difference(table_key(low), table_key(high), i));
    assert forall|j: int| !first_difference(table_key(high), table_key(low), j) by {
        if first_difference(table_key(high), table_key(low), j) && i < j {
            assert(table_key(high)[i] == table_key(low)[i]);
        }
    }
}

/// The range that is asked for holds every key of the table: each that begins with
/// the table's own key.
pub proof fn range_holds_keys_of_table(id: int, rest: Seq<u8>)
    requires
        i64::MIN <= id < i64::MAX,
    ensures
        in_range(table_key(id) + rest, table_key(id), table_key(id + 1)),
{
    let i = lemma_key_order(id, id + 1);
    let key = table_key(id) + rest;
    assert(first_difference(key, table_key(id + 1), i));
    assert forall|j: int| !first_difference(key, table_key(id), j) by {
        if first_difference(key, table_key(id), j) {
            assert(key[j] == table_key(id)[j]);
        }
    }
}

/// The range that is asked for holds no key of another table.
pub proof fn range_holds_no_other_keys(id: int, other: int, rest: Seq<u8>)
    requires
        i64::MIN <= id < i64::MAX,
        i64::MIN <= other <= i64::MAX,
        other != id,
    ensures
        !in_range(table_key(other) + rest, table_key(id), table_key(id + 1)),
{
    let key = table_key(other) + rest;
    if other < id {
        let i = lemma_key_order(other, id);
        assert(first_difference(key, table_key(id), i));
    } else {
        let end = table_key(id + 1);
        let i: int = if other == id + 1 {
            let j = lemma_key_order(id, other);
            9
        } else {
            lemma_key_order(id + 1, other)
        };
        assert forall|j: int| !first_difference(key, end, j) by {
            if first_difference(key, end, j) {
                assert(key[j] == table_key(other)[j]);
                if i < j {
                    assert(key[i] == end[i]);
                }
            }
        }
    }
}

/// A plan scans the table once, from its first row on, and asks for every column of the
/// table, each by its id and its type, in the order of the table.
pub proof fn plans_ask_for_every_column(dag: DagRequest, schema: TableSchema, i: int)
    requires
        dag.scans(schema),
        0 <= i < schema.columns@.len() < 0x1_0000_0000,
    ensures
        dag.executors@.len() == 1,
        dag.executors@[0].tp == ExecType::TypeTableScan,
        !dag.executors@[0].tbl_scan.desc,
        dag.executors@[0].tbl_scan.table_id == schema.id,
        dag.executors@[0].tbl_scan.columns@.len() == schema.columns@.len(),
        dag.executors@[0].tbl_scan.columns@[i].column_id == schema.columns@[i].id,
        dag.executors@[0].tbl_scan.columns@[i].tp == schema.columns@[i].tp,
        dag.output_offsets@.len() == schema.columns@.len(),
        dag.output_offsets@[i] == i,
        dag.executors@[0].executor_id@ == "table_scan_"@ + signed_decimal(schema.id as int),
{
}

/// A plan is executed for the user `root` of any host, eight hours east of UTC, with
/// summaries of its execution, packets of at most 16 MiB and four digits more for a
/// quotient, and in the default encoding with the lowest byte first.
pub proof fn plans_have_these_settings(dag: DagRequest)
    requires
        dag.has_standard_settings(),
    ensures
        dag.user.user_name@ == "root"@,
        dag.user.user_host@ == "%"@,
        dag.time_zone_offset == 8 * 60 * 60,
        dag.time_zone_name@ == "Asia/Shanghai"@,
        dag.collect_execution_summaries,
        dag.max_allowed_packet == 16 * 1024 * 1024,
        dag.div_precision_increment == 4,
        dag.encode_type == EncodeType::TypeDefault,
        dag.endian == Endian::LittleEndian,
        dag.start_ts_fallback == 0 && dag.flags == 0 && dag.sql_mode == 0 && dag.max_warning_count
            == 0,
        !dag.collect_range_counts && !dag.is_rpn_expr && !dag.force_encode_type,
{
}

/// A request is one for a plan, of the first region and its first peer, without a
/// cache, a trace or pages.
pub proof fn requests_have_these_settings(request: CoprocessorRequest)
    requires
        request.has_standard_settings(),
    ensures
        request.tp == 103,
        request.context.region_id == 1 && request.context.peer_id == 1
            && request.context.peer_store_id == 1,
        request.context.region_conf_ver == 1 && request.context.region_version == 1,
        request.connection_id == 12345 && request.context.source_connection_id
            == request.connection_id,
        request.connection_alias@ == "cluster_statements_summary_client"@
            && request.context.source_session_alias@ == request.connection_alias@,
        !request.is_cache_enabled && !request.is_trace_enabled,
        request.cache_if_match_version == 0 && request.schema_ver == 0 && request.paging_size == 0,
{
}

proof fn lemma_be_value(n: nat, width: nat)
    requires
        n < vstd::arithmetic::power::pow(256, width),
    ensures
        be_bytes(n, width).len() == width,
        be_value(be_bytes(n, width)) == n,
    decreases width,
{
    reveal(vstd::arithmetic::power::pow);
    if width > 0 {
        let less = (width - 1) as nat;
        assert(n / 256 < vstd::arithmetic::power::pow(256, less));
        lemma_be_value(n / 256, less);
        assert(be_bytes(n, width).drop_last() =~= be_bytes(n / 256, less));
    }
}

/// The key of a table begins with the letter `t`, and tells the id of the table in the
/// eight bytes behind it, as a number without a sign that is greater by two to the power
/// of 63.
pub proof fn keys_tell_the_id(id: int)
    requires
        i64::MIN <= id <= i64::MAX,
    ensures
        table_key(id).len() == 9,
        table_key(id)[0] == 't' as u8,
        be_value(table_key(id).skip(1)) == id + 0x8000_0000_0000_0000,
{
    assert(vstd::arithmetic::power::pow(256, 8) == 0x1_0000_0000_0000_0000) by {
        reveal_with_fuel(vstd::arithmetic::power::pow, 10);
    }
    let n = (id + 0x8000_0000_0000_0000) as nat;
    lemma_be_value(n, 8);
    assert(table_key(id).skip(1) =~= be_bytes(n, 8));
}

} // verus!
