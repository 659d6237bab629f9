use tidb_lake::clock::Timestamp;
use tidb_lake::string_map::StringMap;
use tidb_lake::system_tables::config::{
    CollectionConfig, DatabaseConfig, TableConfig, TlsConfig,
};
use tidb_lake::system_tables::data_collector::{
    CollectionMethod, CollectorConfig, CollectorConfigType,
};
use tidb_lake::system_tables::sql_collector::{
    column_types, connection_url, convert_mysql_value, convert_rows, data_query, schema_query,
    try_get_as_string_first, try_parse_string_as_number, try_simple_conversion, ColumnDescription,
    SqlCell, SqlCollector,
};
use tidb_lake::value::{FloatForm, Number, Value};

fn text(s: &str) -> Value {
    Value::Text(s.to_string())
}

fn number(n: u64) -> Value {
    Value::Number(Number::PosInt(n))
}

fn cell() -> SqlCell {
    SqlCell {
        unsigned: None,
        signed: None,
        double: None,
        text: None,
        naive_time: None,
        optional_time: None,
        utc_time: None,
    }
}

fn text_cell(s: &str) -> SqlCell {
    SqlCell { text: Some(s.to_string()), ..cell() }
}

fn types(sql_type: &str) -> StringMap<(String, bool)> {
    column_types(&vec![ColumnDescription {
        field: "c".to_string(),
        sql_type: sql_type.to_string(),
        null: "NO".to_string(),
    }])
}

fn value(sql_type: &str, c: &SqlCell) -> Value {
    convert_mysql_value(c, "c", &types(sql_type))
}

fn database() -> DatabaseConfig {
    DatabaseConfig {
        username: "root".to_string(),
        password: "pw".to_string(),
        host: "db".to_string(),
        port: 4000,
        database: "test".to_string(),
        max_connections: None,
        connect_timeout: None,
        tls: None,
    }
}

fn table() -> TableConfig {
    TableConfig {
        source_schema: "information_schema".to_string(),
        source_table: "PROCESSLIST".to_string(),
        dest_table: "hist".to_string(),
        collection_interval: "short".to_string(),
        where_clause: None,
        enabled: true,
    }
}

fn config(config_type: CollectorConfigType) -> CollectorConfig {
    CollectorConfig {
        instance: "db:4000".to_string(),
        config_type,
        collection_config: CollectionConfig {
            short_interval: 5,
            long_interval: 1800,
            retention_days: 7,
        },
        tables: vec![],
    }
}

#[test]
fn integer_columns() {
    let signed = SqlCell { signed: Some(-4), ..cell() };
    assert_eq!(value("INT(11)", &signed), Value::Number(Number::NegInt(-4)));
    assert_eq!(value("bigint(20)", &signed), Value::Number(Number::NegInt(-4)));
    let unsigned = SqlCell { unsigned: Some(u64::MAX), signed: Some(3), ..cell() };
    assert_eq!(value("bigint(20) unsigned", &unsigned), Value::Number(Number::NegInt(-1)));
    assert_eq!(value("int", &unsigned), number(3));
    assert_eq!(value("int", &text_cell("12")), number(12));
    assert_eq!(value("int unsigned", &cell()), Value::Null);
}

#[test]
fn float_columns() {
    let double = SqlCell { double: Some(2.5f64.to_bits()), ..cell() };
    for sql_type in ["decimal(10,2)", "FLOAT", "double", "real"] {
        assert_eq!(value(sql_type, &double), Value::Number(Number::Float(2.5f64.to_bits())));
    }
    let infinite = SqlCell { double: Some(f64::INFINITY.to_bits()), ..cell() };
    assert_eq!(value("double", &infinite), number(0));
    assert_eq!(
        value("double", &text_cell("2.5")),
        Value::Deferred(FloatForm::OfTextOrText("2.5".to_string()))
    );
}

#[test]
fn time_columns() {
    let naive = SqlCell { naive_time: Some(1_709_251_137), utc_time: Some(0), ..cell() };
    assert_eq!(value("timestamp", &naive), text("2024-02-29 23:58:57"));
    let optional = SqlCell { optional_time: Some(Some(0)), ..cell() };
    assert_eq!(value("DateTime(6)", &optional), text("1970-01-01 00:00:00"));
    let absent = SqlCell { optional_time: Some(None), utc_time: Some(0), ..cell() };
    assert_eq!(value("datetime", &absent), Value::Null);
    let utc = SqlCell { utc_time: Some(-1), text: Some("x".to_string()), ..cell() };
    assert_eq!(value("timestamp", &utc), text("1969-12-31 23:59:59"));
    assert_eq!(value("timestamp", &text_cell("soon")), text("soon"));
    assert_eq!(value("timestamp", &cell()), Value::Null);
    let far = SqlCell { naive_time: Some(253_402_300_800), ..cell() };
    assert_eq!(value("timestamp", &far), text("+10000-01-01 00:00:00"));
}

#[test]
fn other_columns() {
    let both = SqlCell { signed: Some(1), text: Some("one".to_string()), ..cell() };
    assert_eq!(value("varchar(64)", &both), text("one"));
    let only_signed = SqlCell { signed: Some(1), ..cell() };
    assert_eq!(value("varchar(64)", &only_signed), number(1));
    assert_eq!(convert_mysql_value(&both, "unknown", &types("varchar(64)")), number(1));
    assert_eq!(value("date", &text_cell("2024-01-01")), text("2024-01-01"));
}

#[test]
fn texts_that_are_numbers() {
    assert_eq!(try_parse_string_as_number(&text_cell("-1")), Value::Number(Number::NegInt(-1)));
    assert_eq!(
        try_parse_string_as_number(&text_cell("9223372036854775808")),
        Value::Number(Number::NegInt(i64::MIN))
    );
    assert_eq!(
        try_parse_string_as_number(&text_cell("18446744073709551616")),
        Value::Deferred(FloatForm::OfTextOrText("18446744073709551616".to_string()))
    );
    assert_eq!(try_parse_string_as_number(&cell()), Value::Null);
}

#[test]
fn simple_conversions() {
    let double = SqlCell { double: Some(0.5f64.to_bits()), text: Some("x".to_string()), ..cell() };
    assert_eq!(try_simple_conversion(&double), Value::Number(Number::Float(0.5f64.to_bits())));
    assert_eq!(try_simple_conversion(&text_cell("x")), text("x"));
    assert_eq!(try_simple_conversion(&cell()), Value::Null);
    assert_eq!(try_get_as_string_first(&double), text("x"));
    assert_eq!(try_get_as_string_first(&cell()), Value::Null);
}

#[test]
fn column_types_are_kept_by_name() {
    let described = column_types(&vec![
        ColumnDescription {
            field: "a".to_string(),
            sql_type: "int".to_string(),
            null: "YES".to_string(),
        },
        ColumnDescription {
            field: "b".to_string(),
            sql_type: "text".to_string(),
            null: "yes".to_string(),
        },
        ColumnDescription {
            field: "a".to_string(),
            sql_type: "bigint".to_string(),
            null: "NO".to_string(),
        },
    ]);
    assert_eq!(described.len(), 2);
    assert_eq!(described.get("a"), Some(&("bigint".to_string(), false)));
    assert_eq!(described.get("b"), Some(&("text".to_string(), false)));
}

#[test]
fn rows_hold_values_by_column() {
    let rows = convert_rows(
        &vec![
            vec![("c".to_string(), text_cell("1")), ("d".to_string(), text_cell("2"))],
            vec![("c".to_string(), cell())],
        ],
        &types("int"),
    );
    assert_eq!(rows.len(), 2);
    assert_eq!(rows[0].get("c"), Some(&number(1)));
    assert_eq!(rows[0].get("d"), Some(&text("2")));
    assert_eq!(rows[1].get("c"), Some(&Value::Null));
    assert_eq!(rows[1].len(), 1);
}

#[test]
fn queries() {
    let mut t = table();
    assert_eq!(schema_query(&t), "SHOW COLUMNS FROM information_schema.PROCESSLIST");
    assert_eq!(data_query(&t), "SELECT * FROM information_schema.PROCESSLIST");
    t.where_clause = Some("command != 'Sleep'".to_string());
    assert_eq!(
        data_query(&t),
        "SELECT * FROM information_schema.PROCESSLIST WHERE command != 'Sleep'"
    );
}

#[test]
fn connections() {
    let mut d = database();
    assert_eq!(connection_url(&d), "mysql://root:pw@db:4000/test");
    let mut tls = TlsConfig {
        ca_file: None,
        crt_file: None,
        key_file: None,
        verify_certificate: None,
        verify_hostname: None,
    };
    d.tls = Some(tls.clone());
    assert_eq!(connection_url(&d), "mysql://root:pw@db:4000/test?ssl-mode=VERIFY_IDENTITY");
    tls.verify_hostname = Some(false);
    d.tls = Some(tls.clone());
    assert_eq!(connection_url(&d), "mysql://root:pw@db:4000/test?ssl-mode=VERIFY_CA");
    tls.verify_certificate = Some(false);
    tls.ca_file = Some("/ca".to_string());
    tls.crt_file = Some("/crt".to_string());
    tls.key_file = Some("/key".to_string());
    d.tls = Some(tls);
    assert_eq!(
        connection_url(&d),
        "mysql://root:pw@db:4000/test?ssl-mode=REQUIRED&ssl-ca=/ca&ssl-cert=/crt&ssl-key=/key"
    );
}

#[test]
fn collectors_need_a_pool() {
    let mut c = match SqlCollector::new(config(CollectorConfigType::Sql {
        database_config: database(),
    })) {
        Ok(c) => c,
        Err(_) => panic!("no collector"),
    };
    assert_eq!(c.collection_method(), CollectionMethod::Sql);
    assert!(c.can_collect_table(&table()));
    match c.health_check() {
        Ok(()) => panic!("healthy"),
        Err(e) => assert_eq!(e.to_text(), "Configuration error: Pool not initialized"),
    }
    match c.pool_settings() {
        Ok(pool) => {
            assert_eq!(pool.url, "mysql://root:pw@db:4000/test");
            assert_eq!((pool.max_connections, pool.acquire_timeout_secs), (10, 30));
        }
        Err(_) => panic!("no settings"),
    }
    c.initialize();
    assert_eq!(c.health_check(), Ok(()));
    let at = Timestamp { seconds: 0, nanos: 0 };
    let result = c.collection_result(&table(), &types("int"), vec![StringMap::new()], at, 4);
    assert_eq!(result.metadata.row_count, 1);
    assert_eq!(result.metadata.collection_method, CollectionMethod::Sql);
    assert_eq!(result.metadata.extra.get("schema_columns"), Some(&number(1)));
    assert_eq!(result.metadata.extra.len(), 1);
}

#[test]
fn collectors_need_a_sql_configuration() {
    let other = || CollectorConfigType::Coprocessor { host: "h".to_string(), port: 1 };
    match SqlCollector::new(config(other())) {
        Ok(_) => panic!("a collector"),
        Err(e) => {
            assert_eq!(e.to_text(), "Configuration error: Invalid config type for SqlCollector")
        }
    }
    let changed = SqlCollector { config: config(other()), connected: true };
    match changed.pool_settings() {
        Ok(_) => panic!("settings"),
        Err(e) => {
            assert_eq!(e.to_text(), "Configuration error: SQL collector requires SQL configuration")
        }
    }
}
