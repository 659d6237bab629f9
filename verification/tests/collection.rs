use tidb_lake::clock::Timestamp;
use tidb_lake::string_map::StringMap;
use tidb_lake::system_tables::collector_factory::{Collector, CollectorFactory};
use tidb_lake::system_tables::config::{
    CollectionConfig, CollectionInterval, DatabaseConfig, TableConfig,
};
use tidb_lake::system_tables::data_collector::utils::{
    create_event_from_result, parse_collection_interval,
};
use tidb_lake::system_tables::data_collector::{
    CollectionError, CollectionMetadata, CollectionMethod, CollectionResult, CollectorConfig,
    CollectorConfigType,
};
use tidb_lake::value::{Number, Value};

fn text(s: &str) -> Value {
    Value::Text(s.to_string())
}

fn number(n: u64) -> Value {
    Value::Number(Number::PosInt(n))
}

fn intervals() -> CollectionConfig {
    CollectionConfig { short_interval: 5, long_interval: 1800, retention_days: 7 }
}

fn table() -> TableConfig {
    TableConfig {
        source_schema: "information_schema".to_string(),
        source_table: "PROCESSLIST".to_string(),
        dest_table: "hist_processlist".to_string(),
        collection_interval: "short".to_string(),
        where_clause: None,
        enabled: true,
    }
}

fn config(coprocessor: bool) -> CollectorConfig {
    let config_type = if coprocessor {
        CollectorConfigType::Coprocessor { host: "h".to_string(), port: 4000 }
    } else {
        CollectorConfigType::Sql {
            database_config: DatabaseConfig {
                username: "root".to_string(),
                password: "".to_string(),
                host: "h".to_string(),
                port: 4000,
                database: "test".to_string(),
                max_connections: None,
                connect_timeout: None,
                tls: None,
            },
        }
    };
    CollectorConfig {
        instance: "h:4000".to_string(),
        config_type,
        collection_config: intervals(),
        tables: vec![table()],
    }
}

#[test]
fn methods_have_names() {
    let names = [
        (CollectionMethod::Sql, "sql"),
        (CollectionMethod::Coprocessor, "coprocessor"),
        (CollectionMethod::HttpApi, "http_api"),
        (CollectionMethod::CustomGrpc, "custom_grpc"),
    ];
    for (method, name) in names {
        assert_eq!(method.to_text(), name);
        assert_eq!(CollectionMethod::from_string(name), Ok(method));
        assert_eq!(CollectionMethod::from_string(&name.to_uppercase()), Ok(method));
    }
    assert_eq!(CollectionMethod::from_string("Http"), Ok(CollectionMethod::HttpApi));
    assert_eq!(CollectionMethod::from_string("gRPC"), Ok(CollectionMethod::CustomGrpc));
    assert_eq!(CollectionMethod::from_string("S\u{212A}L").is_err(), true);
    assert_eq!(
        CollectionMethod::from_string("Ftp"),
        Err(CollectionError::ConfigurationError(
            "Unknown collection method: Ftp. Supported: sql, coprocessor, http_api, custom_grpc"
                .to_string()
        ))
    );
}

#[test]
fn errors_have_texts() {
    let m = || "m".to_string();
    assert_eq!(CollectionError::ConnectionError(m()).to_text(), "Connection error: m");
    assert_eq!(CollectionError::QueryError(m()).to_text(), "Query error: m");
    assert_eq!(CollectionError::ParseError(m()).to_text(), "Parse error: m");
    assert_eq!(CollectionError::ConfigurationError(m()).to_text(), "Configuration error: m");
    assert_eq!(CollectionError::TimeoutError(m()).to_text(), "Timeout error: m");
    assert_eq!(CollectionError::AuthenticationError(m()).to_text(), "Authentication error: m");
    assert_eq!(CollectionError::NetworkError(m()).to_text(), "Network error: m");
}

#[test]
fn intervals_are_short_long_or_custom() {
    let c = intervals();
    assert_eq!(parse_collection_interval("short", &c), 5);
    assert_eq!(parse_collection_interval("long", &c), 1800);
    assert_eq!(parse_collection_interval("custom=0", &c), 0);
    assert_eq!(parse_collection_interval("custom=90", &c), 90);
    assert_eq!(parse_collection_interval("custom=18446744073709551615", &c), u64::MAX);
    assert_eq!(parse_collection_interval("custom=18446744073709551616", &c), 5);
    assert_eq!(parse_collection_interval("custom=", &c), 5);
    assert_eq!(parse_collection_interval("custom=1m", &c), 5);
    assert_eq!(parse_collection_interval("Long", &c), 5);
    assert_eq!(parse_collection_interval("", &c), 5);
    assert_ne!(CollectionInterval::Custom(5), CollectionInterval::Short);
}

#[test]
fn only_two_methods_are_supported() {
    assert_eq!(
        CollectorFactory::supported_methods(),
        vec![CollectionMethod::Sql, CollectionMethod::Coprocessor]
    );
    assert!(CollectorFactory::supports_method(&CollectionMethod::Sql));
    assert!(CollectorFactory::supports_method(&CollectionMethod::Coprocessor));
    assert!(!CollectorFactory::supports_method(&CollectionMethod::HttpApi));
    assert!(!CollectorFactory::supports_method(&CollectionMethod::CustomGrpc));
}

#[test]
fn collectors_are_created_by_method() {
    let by_sql = CollectorFactory::create_collector(CollectionMethod::Sql, config(false));
    match by_sql {
        Ok(c) => {
            assert!(matches!(c, Collector::Sql(_)));
            assert_eq!(c.collection_method(), CollectionMethod::Sql);
            assert!(c.can_collect_table(&table()));
        }
        Err(_) => panic!("no collector"),
    }
    let by_coprocessor =
        CollectorFactory::create_collector(CollectionMethod::Coprocessor, config(true));
    match by_coprocessor {
        Ok(c) => {
            assert_eq!(c.collection_method(), CollectionMethod::Coprocessor);
            assert!(!c.can_collect_table(&table()));
        }
        Err(_) => panic!("no collector"),
    }
}

#[test]
fn collectors_that_cannot_be_created() {
    let fault = |method: CollectionMethod, coprocessor: bool| {
        match CollectorFactory::create_collector(method, config(coprocessor)) {
            Ok(_) => panic!("a collector"),
            Err(e) => e.to_text(),
        }
    };
    assert_eq!(
        fault(CollectionMethod::HttpApi, false),
        "Configuration error: HTTP API collection method not implemented yet"
    );
    assert_eq!(
        fault(CollectionMethod::CustomGrpc, true),
        "Configuration error: Custom gRPC collection method not implemented yet"
    );
    assert_eq!(
        fault(CollectionMethod::Sql, true),
        "Configuration error: Invalid config type for SqlCollector"
    );
    assert_eq!(
        fault(CollectionMethod::Coprocessor, false),
        "Configuration error: Invalid config type for CoprocessorCollector"
    );
}

#[test]
fn events_tell_where_rows_come_from() {
    let mut extra = StringMap::new();
    extra.insert("schema_columns".to_string(), number(2));
    let result = CollectionResult {
        data: vec![],
        metadata: CollectionMetadata {
            instance: "h:4000".to_string(),
            table_config: table(),
            collection_method: CollectionMethod::Sql,
            timestamp: Timestamp { seconds: 1_709_251_137, nanos: 120_000_000 },
            row_count: 3,
            duration_ms: u64::MAX,
            extra,
        },
    };
    let mut row = StringMap::new();
    row.insert("ID".to_string(), number(7));
    row.insert("_vector_table".to_string(), text("mine"));
    let fields = create_event_from_result(&result, &row);
    let expected: Vec<(String, Value)> = vec![
        ("_vector_table", text("hist_processlist")),
        ("_vector_source_table", text("PROCESSLIST")),
        ("_vector_source_schema", text("information_schema")),
        ("_vector_instance", text("h:4000")),
        ("_vector_timestamp", text("2024-02-29T23:58:57.120+00:00")),
        ("_vector_collection_method", text("sql")),
        ("_vector_collection_duration_ms", Value::Number(Number::NegInt(-1))),
        ("_vector_row_count", number(3)),
        ("_vector_meta_schema_columns", number(2)),
        ("ID", number(7)),
        ("_vector_table", text("mine")),
    ]
    .into_iter()
    .map(|(k, v)| (k.to_string(), v))
    .collect();
    assert_eq!(fields, expected);
}

#[test]
fn points_in_time_are_written_in_utc() {
    let at = |seconds: i64, nanos: u32| Timestamp { seconds, nanos };
    assert_eq!(at(0, 0).to_rfc3339(), "1970-01-01T00:00:00+00:00");
    assert_eq!(at(-1, 0).to_rfc3339(), "1969-12-31T23:59:59+00:00");
    assert_eq!(at(1, 1_000).to_rfc3339(), "1970-01-01T00:00:01.000001+00:00");
    assert_eq!(at(1, 1).to_rfc3339(), "1970-01-01T00:00:01.000000001+00:00");
    assert_eq!(at(253_402_300_799, 0).date_text(), "9999-12-31");
    assert_eq!(at(-62_167_219_200, 0).date_text(), "0000-01-01");
    assert_eq!(at(253_402_300_800, 0).to_rfc3339(), "+10000-01-01T00:00:00+00:00");
    assert_eq!(at(-62_167_219_201, 0).to_rfc3339(), "-0001-12-31T23:59:59+00:00");
    assert_eq!(at(8_210_266_876_799, 0).date_text(), "+262142-12-31");
    assert_eq!(at(-8_334_601_228_800, 0).date_text(), "-262143-01-01");
}
