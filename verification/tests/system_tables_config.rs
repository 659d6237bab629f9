use tidb_lake::string_map::StringMap;
use tidb_lake::system_tables::config::{
    default_collection_method, default_topology_fetch_interval, DatabaseEnvVars,
    SystemTablesConfig, TlsConfig,
};
use tidb_lake::system_tables::data_collector::CollectionMethod;

fn env(pairs: &[(&str, &str)]) -> StringMap<String> {
    let mut map = StringMap::new();
    for (k, v) in pairs {
        map.insert(k.to_string(), v.to_string());
    }
    map
}

fn fault(config: &SystemTablesConfig) -> String {
    match config.validate() {
        Ok(()) => "none".to_string(),
        Err(message) => message,
    }
}

#[test]
fn generate_config() {
    let config = SystemTablesConfig::generate_config();
    assert_eq!(config.pd_address, Some("127.0.0.1:2379".to_string()));
    assert_eq!(config.tidb_group, None);
    assert_eq!(config.label_k8s_instance, None);
    assert_eq!(config.database_username, Some("root".to_string()));
    assert_eq!(config.database_password, Some("".to_string()));
    assert_eq!(config.database_host, Some("127.0.0.1".to_string()));
    assert_eq!(config.database_port, Some(4000));
    assert_eq!(config.database_name, Some("test".to_string()));
    assert_eq!(config.database_max_connections, Some(10));
    assert_eq!(config.database_connect_timeout, Some(30));
    assert_eq!((config.short_interval, config.long_interval, config.retention_days), (5, 1800, 7));
    assert_eq!(config.tables.len(), 1);
    assert_eq!(config.tables[0].source_schema, "information_schema");
    assert_eq!(config.tables[0].source_table, "PROCESSLIST");
    assert_eq!(config.tables[0].dest_table, "hist_processlist");
    assert_eq!(config.tables[0].collection_interval, "short");
    assert_eq!(config.tables[0].where_clause, Some("command != 'Sleep'".to_string()));
    assert!(config.tables[0].enabled);
    assert_eq!(config.pd_tls, None);
    assert_eq!(config.database_tls, None);
    assert_eq!(f64::from_bits(config.topology_fetch_interval_seconds), 30.0);
    assert_eq!(config.collection_method, "coprocessor");
    assert_eq!(config.clone(), config);
    assert_eq!(config.validate(), Ok(()));
}

#[test]
fn defaults() {
    assert_eq!(f64::from_bits(default_topology_fetch_interval()), 30.0);
    assert_eq!(default_collection_method(), "coprocessor");
}

#[test]
fn collection_by_sql_needs_a_database() {
    let mut config = SystemTablesConfig::generate_config();
    config.collection_method = "SQL".to_string();
    assert_eq!(config.validate(), Ok(()));
    let message = |name: &str| {
        format!(
            "missing field `{}` in `sources.tidb_system_tables` (required for SQL collection method)",
            name
        )
    };
    config.database_name = None;
    assert_eq!(fault(&config), message("database_name"));
    config.database_port = None;
    assert_eq!(fault(&config), message("database_port"));
    config.database_host = None;
    assert_eq!(fault(&config), message("database_host"));
    config.database_password = None;
    assert_eq!(fault(&config), message("database_password"));
    config.database_username = None;
    assert_eq!(fault(&config), message("database_username"));
    for method in ["coprocessor", "Http_Api", "CUSTOM_GRPC"] {
        config.collection_method = method.to_string();
        assert_eq!(config.validate(), Ok(()));
        assert!(CollectionMethod::from_string(method).is_ok());
    }
}

#[test]
fn other_methods_are_refused() {
    let mut config = SystemTablesConfig::generate_config();
    config.collection_method = "Telnet".to_string();
    assert_eq!(
        fault(&config),
        "unsupported collection method: Telnet. Supported methods: sql, coprocessor, http_api, custom_grpc"
    );
    config.collection_method = "grpc".to_string();
    assert!(config.validate().is_err());
}

#[test]
fn the_environment_takes_precedence() {
    let vars = env(&[
        (DatabaseEnvVars::PD_ADDRESS, "pd:2379"),
        (DatabaseEnvVars::TIDB_GROUP, "group"),
        (DatabaseEnvVars::LABEL_K8S_INSTANCE, "label"),
        (DatabaseEnvVars::USERNAME, "user"),
        (DatabaseEnvVars::PASSWORD, "secret"),
        (DatabaseEnvVars::HOST, "db"),
        (DatabaseEnvVars::PORT, "+65535"),
        (DatabaseEnvVars::DATABASE, "name"),
        (DatabaseEnvVars::MAX_CONNECTIONS, "4294967295"),
        (DatabaseEnvVars::CONNECT_TIMEOUT, "18446744073709551615"),
        (DatabaseEnvVars::SHORT_INTERVAL, "1"),
        (DatabaseEnvVars::LONG_INTERVAL, "2"),
        (DatabaseEnvVars::RETENTION_DAYS, "3"),
        (DatabaseEnvVars::COLLECTION_METHOD, "sql"),
    ]);
    let mut config = SystemTablesConfig::generate_config();
    config.merge_with_env(&vars, Some(1.5f64.to_bits()));
    assert_eq!(config.pd_address, Some("pd:2379".to_string()));
    assert_eq!(config.tidb_group, Some("group".to_string()));
    assert_eq!(config.label_k8s_instance, Some("label".to_string()));
    assert_eq!(config.database_username, Some("user".to_string()));
    assert_eq!(config.database_password, Some("secret".to_string()));
    assert_eq!(config.database_host, Some("db".to_string()));
    assert_eq!(config.database_port, Some(65535));
    assert_eq!(config.database_name, Some("name".to_string()));
    assert_eq!(config.database_max_connections, Some(u32::MAX));
    assert_eq!(config.database_connect_timeout, Some(u64::MAX));
    assert_eq!((config.short_interval, config.long_interval, config.retention_days), (1, 2, 3));
    assert_eq!(f64::from_bits(config.topology_fetch_interval_seconds), 1.5);
    assert_eq!(config.collection_method, "sql");
    let once = config.clone();
    config.merge_with_env(&vars, Some(1.5f64.to_bits()));
    assert_eq!(config, once);
}

#[test]
fn what_the_environment_cannot_give_is_kept() {
    let before = SystemTablesConfig::generate_config();
    let mut config = before.clone();
    config.merge_with_env(&env(&[]), None);
    assert_eq!(config, before);
    config.merge_with_env(
        &env(&[
            (DatabaseEnvVars::PORT, "65536"),
            (DatabaseEnvVars::MAX_CONNECTIONS, "-1"),
            (DatabaseEnvVars::CONNECT_TIMEOUT, ""),
            (DatabaseEnvVars::SHORT_INTERVAL, "5s"),
            (DatabaseEnvVars::LONG_INTERVAL, "1.5"),
            (DatabaseEnvVars::RETENTION_DAYS, "4294967296"),
            (DatabaseEnvVars::TLS_VERIFY_HOSTNAME, "true"),
        ]),
        None,
    );
    assert_eq!(config, before);
}

#[test]
fn tls_comes_with_a_file() {
    let mut config = SystemTablesConfig::generate_config();
    config.merge_with_env(
        &env(&[
            (DatabaseEnvVars::TLS_CA_FILE, "/ca.pem"),
            (DatabaseEnvVars::TLS_VERIFY_CERTIFICATE, "true"),
            (DatabaseEnvVars::TLS_VERIFY_HOSTNAME, "False"),
            (DatabaseEnvVars::PD_TLS_CERT_FILE, "/crt.pem"),
            (DatabaseEnvVars::PD_TLS_KEY_FILE, "/key.pem"),
            (DatabaseEnvVars::PD_TLS_VERIFY_CERTIFICATE, "false"),
        ]),
        None,
    );
    assert_eq!(
        config.database_tls,
        Some(TlsConfig {
            ca_file: Some("/ca.pem".to_string()),
            crt_file: None,
            key_file: None,
            verify_certificate: Some(true),
            verify_hostname: None,
        })
    );
    assert_eq!(
        config.pd_tls,
        Some(TlsConfig {
            ca_file: None,
            crt_file: Some("/crt.pem".to_string()),
            key_file: Some("/key.pem".to_string()),
            verify_certificate: Some(false),
            verify_hostname: None,
        })
    );
}

#[test]
fn the_controller_is_started_with_the_merged_configuration() {
    let config = SystemTablesConfig::generate_config();
    let plain = match config.build(&env(&[]), None) {
        Ok(settings) => settings,
        Err(_) => panic!("refused"),
    };
    assert_eq!(plain.database_config.username, "unused");
    assert_eq!(plain.database_config.password, "unused");
    assert_eq!(plain.database_config.host, "unused");
    assert_eq!(plain.database_config.database, "unused");
    assert_eq!(plain.database_config.port, 0);
    assert_eq!(plain.database_config.max_connections, None);
    assert_eq!(plain.tables, config.tables);
    assert_eq!(plain.pd_address, config.pd_address);
    assert_eq!(plain.collection_config.short_interval, 5);

    let by_sql = env(&[(DatabaseEnvVars::COLLECTION_METHOD, "Sql"), (DatabaseEnvVars::PORT, "4444")]);
    match config.build(&by_sql, None) {
        Ok(settings) => {
            assert_eq!(settings.collection_method, "Sql");
            assert_eq!(settings.database_config.username, "root");
            assert_eq!(settings.database_config.port, 4444);
            assert_eq!(settings.database_config.max_connections, Some(10));
        }
        Err(_) => panic!("refused"),
    }

    match config.build(&env(&[(DatabaseEnvVars::COLLECTION_METHOD, "x")]), None) {
        Ok(_) => panic!("accepted"),
        Err(message) => assert_eq!(
            message,
            "unsupported collection method: x. Supported methods: sql, coprocessor, http_api, custom_grpc"
        ),
    }
}
