use tidb_lake::clock::Timestamp;
use tidb_lake::string_map::StringMap;
use tidb_lake::system_tables::config::{CollectionConfig, DatabaseConfig, TableConfig};
use tidb_lake::system_tables::coprocessor::collector::{
    collection_step, fallback_to_http_collection, parse_table_schema, rows_or_fallback,
    schema_or_fallback, CollectionStep, CoprocessorCollector, ResponseStep,
};
use tidb_lake::system_tables::coprocessor::columns::{TableColumn, TableSchema};
use tidb_lake::system_tables::coprocessor::request::{
    build_coprocessor_request, build_dag_request, EncodeType, Endian, ExecType,
};
use tidb_lake::system_tables::coprocessor::rows::{SelectError, SelectResponse};
use tidb_lake::system_tables::data_collector::{
    CollectionError, CollectionMethod, CollectorConfig, CollectorConfigType,
};
use tidb_lake::value::{Number, Value};

fn text(s: &str) -> Value {
    Value::Text(s.to_string())
}

fn number(n: u64) -> Value {
    Value::Number(Number::PosInt(n))
}

fn object(entries: Vec<(&str, Value)>) -> Value {
    Value::Object(entries.into_iter().map(|(k, v)| (k.to_string(), v)).collect())
}

fn table(name: &str) -> TableConfig {
    TableConfig {
        source_schema: "information_schema".to_string(),
        source_table: name.to_string(),
        dest_table: "hist".to_string(),
        collection_interval: "short".to_string(),
        where_clause: None,
        enabled: true,
    }
}

fn config(config_type: CollectorConfigType) -> CollectorConfig {
    CollectorConfig {
        instance: "10.0.0.1:4000".to_string(),
        config_type,
        collection_config: CollectionConfig {
            short_interval: 5,
            long_interval: 1800,
            retention_days: 7,
        },
        tables: vec![],
    }
}

fn sql_type() -> CollectorConfigType {
    CollectorConfigType::Sql {
        database_config: DatabaseConfig {
            username: "root".to_string(),
            password: "".to_string(),
            host: "h".to_string(),
            port: 4000,
            database: "test".to_string(),
            max_connections: None,
            connect_timeout: None,
            tls: None,
        },
    }
}

fn collector(port: u16) -> CoprocessorCollector {
    match CoprocessorCollector::new(config(CollectorConfigType::Coprocessor {
        host: "10.0.0.1".to_string(),
        port,
    })) {
        Ok(c) => c,
        Err(_) => panic!("no collector"),
    }
}

fn schema() -> TableSchema {
    TableSchema {
        id: 42,
        columns: vec![
            TableColumn { id: 1, tp: 15, name: Some("DIGEST".to_string()) },
            TableColumn { id: 2, tp: 8, name: None },
        ],
    }
}

#[test]
fn the_endpoint_is_the_status_port() {
    assert_eq!(collector(4000).grpc_endpoint, "http://10.0.0.1:10080");
    assert_eq!(collector(4001).grpc_endpoint, "http://10.0.0.1:10081");
    assert_eq!(collector(59455).grpc_endpoint, "http://10.0.0.1:65535");
    assert_eq!(
        collector(4000).schema_url(&table("CLUSTER_INFO")),
        Ok("http://10.0.0.1:10080/schema/information_schema/CLUSTER_INFO".to_string())
    );
}

#[test]
fn another_configuration_is_refused() {
    match CoprocessorCollector::new(config(sql_type())) {
        Ok(_) => panic!("a collector"),
        Err(e) => assert_eq!(
            e,
            CollectionError::ConfigurationError(
                "Invalid config type for CoprocessorCollector".to_string()
            )
        ),
    }
    let mut changed = collector(4000);
    changed.config.config_type = sql_type();
    assert_eq!(
        changed.schema_url(&table("CLUSTER_INFO")),
        Err(CollectionError::ConfigurationError(
            "Invalid config type for coprocessor table schema fetch".to_string()
        ))
    );
}

#[test]
fn cluster_tables_can_be_collected() {
    let c = collector(4000);
    assert_eq!(c.collection_method(), CollectionMethod::Coprocessor);
    assert!(c.can_collect_table(&table("CLUSTER_INFO")));
    assert!(c.can_collect_table(&table("STATEMENTS_SUMMARY_HISTORY")));
    assert!(c.can_collect_table(&table("MY_SLOW_QUERY_2")));
    assert!(!c.can_collect_table(&table("PROCESSLIST")));
    assert!(!c.can_collect_table(&table("MY_CLUSTER_INFO")));
}

#[test]
fn a_collector_has_to_be_initialized() {
    let mut c = collector(4000);
    assert_eq!(
        c.health_check(),
        Err(CollectionError::ConfigurationError("gRPC channel not initialized".to_string()))
    );
    c.initialize();
    assert_eq!(c.health_check(), Ok(()));
}

#[test]
fn schemas_are_read_from_documents() {
    let doc = object(vec![
        ("id", number(105)),
        (
            "cols",
            Value::Array(vec![
                object(vec![
                    ("id", number(1)),
                    ("name", object(vec![("O", text("INSTANCE")), ("L", text("instance"))])),
                    ("type", object(vec![("Tp", number(15)), ("Flag", number(0))])),
                ]),
                object(vec![("type", object(vec![("Tp", number(0x1_0000_0007))]))]),
                object(vec![("name", text("plain")), ("type", number(3))]),
                Value::Null,
            ]),
        ),
    ]);
    assert_eq!(
        parse_table_schema(&doc),
        TableSchema {
            id: 105,
            columns: vec![
                TableColumn { id: 1, tp: 15, name: Some("INSTANCE".to_string()) },
                TableColumn { id: 0, tp: 7, name: None },
                TableColumn { id: 0, tp: 15, name: None },
                TableColumn { id: 0, tp: 15, name: None },
            ],
        }
    );
    let empty = TableSchema { id: 0, columns: vec![] };
    assert_eq!(parse_table_schema(&Value::Null), empty);
    assert_eq!(parse_table_schema(&object(vec![("id", text("7"))])), empty);
}

#[test]
fn plans_scan_all_columns() {
    let dag = match build_dag_request(&schema()) {
        Ok(dag) => dag,
        Err(_) => panic!("no plan"),
    };
    assert_eq!(dag.executors.len(), 1);
    let scan = &dag.executors[0];
    assert_eq!(scan.tp, ExecType::TypeTableScan);
    assert_eq!(scan.executor_id, "table_scan_42");
    assert_eq!(scan.tbl_scan.table_id, 42);
    assert!(!scan.tbl_scan.desc);
    let columns: Vec<(i64, i32)> =
        scan.tbl_scan.columns.iter().map(|c| (c.column_id, c.tp)).collect();
    assert_eq!(columns, vec![(1, 15), (2, 8)]);
    assert_eq!(dag.output_offsets, vec![0, 1]);
    assert_eq!(dag.start_ts_fallback, 0);
    assert_eq!(dag.time_zone_offset, 28800);
    assert_eq!(dag.time_zone_name, "Asia/Shanghai");
    assert_eq!(dag.flags, 0);
    assert_eq!(dag.max_warning_count, 0);
    assert_eq!(dag.sql_mode, 0);
    assert_eq!(dag.encode_type, EncodeType::TypeDefault);
    assert_eq!(dag.endian, Endian::LittleEndian);
    assert_eq!(dag.max_allowed_packet, 16 * 1024 * 1024);
    assert_eq!(dag.user.user_name, "root");
    assert_eq!(dag.user.user_host, "%");
    assert_eq!(dag.div_precision_increment, 4);
    assert!(dag.collect_execution_summaries);
    assert!(!dag.collect_range_counts && !dag.is_rpn_expr && !dag.force_encode_type);
}

#[test]
fn a_table_without_columns_cannot_be_scanned() {
    let bare = TableSchema { id: -3, columns: vec![] };
    assert_eq!(
        build_dag_request(&bare),
        Err(CollectionError::ConfigurationError(
            "No schema information available for table_id -3. Schema is required for coprocessor requests."
                .to_string()
        ))
    );
    assert!(matches!(collection_step(&bare), CollectionStep::Fallback));
    assert_eq!(fallback_to_http_collection().len(), 0);
    match collection_step(&schema()) {
        CollectionStep::Request(dag) => assert_eq!(dag.executors[0].tbl_scan.table_id, 42),
        CollectionStep::Fallback => panic!("no request"),
    }
}

#[test]
fn a_schema_that_cannot_be_fetched_has_no_columns() {
    assert_eq!(schema_or_fallback(Ok(schema())), schema());
    assert_eq!(
        schema_or_fallback(Err(CollectionError::NetworkError("down".to_string()))),
        TableSchema { id: 0, columns: vec![] }
    );
}

#[test]
fn requests_ask_for_the_keys_of_the_table() {
    let one = TableSchema { id: 1, columns: vec![] };
    let request = build_coprocessor_request(&one, vec![9, 8, 7], 1_700_000_000);
    assert_eq!(request.ranges.len(), 1);
    assert_eq!(request.ranges[0].start, vec![0x74, 0x80, 0, 0, 0, 0, 0, 0, 0x01]);
    assert_eq!(request.ranges[0].end, vec![0x74, 0x80, 0, 0, 0, 0, 0, 0, 0x02]);
    assert_eq!(request.data, vec![9, 8, 7]);
    assert_eq!(request.start_ts, 1_700_000_000);
    assert_eq!(request.tp, 103);
    assert_eq!(request.context.region_id, 1);
    assert_eq!(request.context.region_conf_ver, 1);
    assert_eq!(request.context.region_version, 1);
    assert_eq!(request.context.peer_id, 1);
    assert_eq!(request.context.peer_store_id, 1);
    assert_eq!(request.context.source_connection_id, 12345);
    assert_eq!(request.context.source_session_alias, "cluster_statements_summary_client");
    assert_eq!(request.connection_id, 12345);
    assert_eq!(request.connection_alias, "cluster_statements_summary_client");
    assert!(!request.is_cache_enabled && !request.is_trace_enabled);
    assert_eq!(
        (request.cache_if_match_version, request.schema_ver, request.paging_size),
        (0, 0, 0)
    );
}

#[test]
fn key_ranges_follow_each_other_in_the_order_of_ids() {
    let ids = [i64::MIN, -256, -2, -1, 0, 1, 255, 256, i64::MAX - 1];
    let mut last: Vec<u8> = vec![];
    for id in ids {
        let request = build_coprocessor_request(&TableSchema { id, columns: vec![] }, vec![], 0);
        let next =
            build_coprocessor_request(&TableSchema { id: id.min(i64::MAX - 2) + 1, columns: vec![] }, vec![], 0);
        let range = &request.ranges[0];
        assert!(last < range.start);
        assert!(range.start < range.end);
        if id < i64::MAX - 2 {
            assert_eq!(range.end, next.ranges[0].start);
        }
        let mut row_key = range.start.clone();
        row_key.extend_from_slice(b"_r\xFF\xFF");
        assert!(range.start <= row_key && row_key < range.end);
        last = range.start.clone();
    }
}

#[test]
fn responses_need_a_schema_once() {
    let mut c = collector(4000);
    let t = table("CLUSTER_INFO");
    match c.response_step("region is unavailable", &[1], &t) {
        Err(e) => assert_eq!(
            e,
            CollectionError::QueryError("Coprocessor error: region is unavailable".to_string())
        ),
        Ok(_) => panic!("no error"),
    }
    assert!(matches!(c.response_step("", &[], &t), Ok(ResponseStep::NoRows)));
    assert!(matches!(c.response_step("", &[1], &t), Ok(ResponseStep::FetchSchema)));
    assert_eq!(c.cache_table_schema(&t, schema()), Ok(schema()));
    match c.response_step("", &[1], &t) {
        Ok(ResponseStep::Decode(known)) => assert_eq!(known, schema()),
        _ => panic!("schema is not known"),
    }
    assert!(matches!(
        c.response_step("", &[1], &table("CLUSTER_LOAD")),
        Ok(ResponseStep::FetchSchema)
    ));
}

#[test]
fn a_schema_without_columns_is_not_remembered() {
    let mut c = collector(4000);
    let t = table("CLUSTER_INFO");
    assert_eq!(
        c.cache_table_schema(&t, TableSchema { id: 5, columns: vec![] }),
        Err(CollectionError::ConfigurationError(
            "Retrieved schema for table information_schema.CLUSTER_INFO has no columns".to_string()
        ))
    );
    assert!(matches!(c.response_step("", &[1], &t), Ok(ResponseStep::FetchSchema)));
}

#[test]
fn responses_hold_rows_or_an_error() {
    let c = collector(4000);
    let t = table("CLUSTER_INFO");
    let rows = c.parse_coprocessor_response(
        &SelectResponse {
            error: None,
            chunks: vec![vec![0x02, 0x04, b'd', b'1', 0x09, 7]],
            encode_type: 0,
        },
        &t,
        &schema(),
    );
    match rows {
        Ok(rows) => {
            assert_eq!(rows.len(), 1);
            assert_eq!(rows[0].get("DIGEST"), Some(&text("d1")));
            assert_eq!(rows[0].get("col_1"), Some(&number(7)));
            assert_eq!(rows[0].get("INSTANCE"), Some(&text("10.0.0.1:4000")));
        }
        Err(_) => panic!("no rows"),
    }
    let failed = c.parse_coprocessor_response(
        &SelectResponse {
            error: Some(SelectError { code: 1, msg: "boom".to_string() }),
            chunks: vec![],
            encode_type: 0,
        },
        &t,
        &schema(),
    );
    match failed {
        Err(e) => assert_eq!(
            e.to_text(),
            "Query error: TiDB execution error for table information_schema.CLUSTER_INFO [1]: boom"
        ),
        Ok(_) => panic!("no error"),
    }
}

#[test]
fn results_describe_their_columns() {
    let c = collector(4000);
    let t = table("CLUSTER_INFO");
    let at = Timestamp { seconds: 1_700_000_000, nanos: 5 };
    let result = c.collection_result(&t, &schema(), vec![], false, at, 12);
    assert_eq!(result.data.len(), 0);
    assert_eq!(result.metadata.instance, "10.0.0.1:4000");
    assert_eq!(result.metadata.table_config, t);
    assert_eq!(result.metadata.collection_method, CollectionMethod::Coprocessor);
    assert_eq!(result.metadata.timestamp, at);
    assert_eq!((result.metadata.row_count, result.metadata.duration_ms), (0, 12));
    let extra = &result.metadata.extra;
    assert_eq!(extra.len(), 4);
    assert_eq!(extra.get("schema_columns"), Some(&number(2)));
    assert_eq!(extra.get("grpc_endpoint"), Some(&text("http://10.0.0.1:10080")));
    assert_eq!(extra.get("fallback_used"), Some(&Value::Bool(false)));
    assert_eq!(
        extra.get("schema_metadata"),
        Some(&object(vec![("DIGEST", object(vec![("mysql_type", text("varchar"))]))]))
    );
}

#[test]
fn the_fallback_is_told_of() {
    let c = collector(4000);
    let t = table("CLUSTER_INFO");
    let at = Timestamp { seconds: 1_700_000_000, nanos: 0 };
    let unknown = schema_or_fallback(Err(CollectionError::NetworkError("down".to_string())));
    assert!(matches!(collection_step(&unknown), CollectionStep::Fallback));
    let (rows, fallback_used) = rows_or_fallback(None);
    let result = c.collection_result(&t, &unknown, rows, fallback_used, at, 3);
    assert_eq!(result.metadata.row_count, result.data.len());
    assert_eq!(result.metadata.table_config, t);
    assert_eq!(result.metadata.extra.get("fallback_used"), Some(&Value::Bool(true)));
    assert_eq!(result.metadata.extra.get("schema_columns"), Some(&number(0)));
}

#[test]
fn rows_of_a_request_are_kept() {
    let (rows, fallback_used) = rows_or_fallback(Some(vec![StringMap::new()]));
    assert_eq!((rows.len(), fallback_used), (1, false));
    let (rows, fallback_used) = rows_or_fallback(Some(vec![]));
    assert_eq!((rows.len(), fallback_used), (0, false));
}

#[test]
fn a_failed_request_leads_to_the_fallback() {
    assert!(matches!(collector(4000).request_failed(), CollectionStep::Fallback));
}
