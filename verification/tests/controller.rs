use tidb_lake::clock::Timestamp;
use tidb_lake::string_map::StringMap;
use tidb_lake::system_tables::collector_factory::CollectorFactory;
use tidb_lake::system_tables::config::{
    CollectionConfig, DatabaseConfig, SourceSettings, TableConfig, TlsConfig,
};
use tidb_lake::system_tables::controller::{
    collected_tables, is_collected, next_action, next_collected, result_events, task_interval,
    Component, Controller, InstanceType, RoundAction,
};
use tidb_lake::system_tables::data_collector::{
    CollectionMetadata, CollectionMethod, CollectionResult, CollectorConfigType,
};
use tidb_lake::value::{Number, Value};

fn table(name: &str) -> TableConfig {
    TableConfig {
        source_schema: "information_schema".to_string(),
        source_table: name.to_string(),
        dest_table: "hist".to_string(),
        collection_interval: "long".to_string(),
        where_clause: None,
        enabled: true,
    }
}

fn settings(method: &str, tables: Vec<TableConfig>) -> SourceSettings {
    SourceSettings {
        pd_address: Some("pd:2379".to_string()),
        tidb_group: None,
        label_k8s_instance: None,
        topology_fetch_interval_seconds: 0,
        database_config: DatabaseConfig {
            username: "root".to_string(),
            password: "pw".to_string(),
            host: "unused".to_string(),
            port: 0,
            database: "test".to_string(),
            max_connections: None,
            connect_timeout: None,
            tls: None,
        },
        collection_config: CollectionConfig {
            short_interval: 5,
            long_interval: 1800,
            retention_days: 7,
        },
        tables,
        pd_tls: Some(TlsConfig {
            ca_file: Some("/ca".to_string()),
            crt_file: None,
            key_file: None,
            verify_certificate: None,
            verify_hostname: None,
        }),
        collection_method: method.to_string(),
    }
}

fn controller(method: &str, tables: Vec<TableConfig>) -> Controller {
    match Controller::new(settings(method, tables), false) {
        Ok((c, _)) => c,
        Err(_) => panic!("no controller"),
    }
}

fn fault(settings: SourceSettings, nextgen: bool) -> String {
    match Controller::new(settings, nextgen) {
        Ok(_) => panic!("a controller"),
        Err(message) => message,
    }
}

fn tidb(host: &str, port: u16) -> Component {
    Component { instance_type: InstanceType::TiDB, host: host.to_string(), primary_port: port }
}

fn update(c: &mut Controller, components: Vec<Component>) -> (Vec<String>, Vec<String>) {
    let mut change = c.begin_update(components);
    let mut started = Vec::new();
    while let Some(start) = c.next_start(&mut change) {
        started.push(start.key.clone());
        let count = start.config.tables.len();
        c.started(start.key, count);
    }
    let stopped = c.finish_update(change);
    (started, stopped)
}

fn keys(c: &Controller) -> Vec<String> {
    let mut out: Vec<String> = Vec::new();
    for i in 0..c.running_collectors.len() {
        out.push(c.running_collectors.key_at(i).clone());
    }
    out.sort();
    out
}

#[test]
fn settings_are_checked() {
    assert_eq!(
        fault(settings("ftp", vec![]), false),
        "Invalid collection method: Configuration error: Unknown collection method: ftp. Supported: sql, coprocessor, http_api, custom_grpc"
    );
    assert_eq!(
        fault(settings("sql", vec![]), true),
        "In nextgen mode, either tidb_group or label_k8s_instance must be specified"
    );
    let mut no_address = settings("sql", vec![]);
    no_address.pd_address = None;
    assert_eq!(fault(no_address, false), "In legacy mode, pd_address must be specified");
}

#[test]
fn the_cluster_is_discovered_by_mode() {
    match Controller::new(settings("SQL", vec![]), false) {
        Ok((c, topology)) => {
            assert_eq!(c.collection_method, CollectionMethod::Sql);
            assert_eq!(c.running_collectors.len(), 0);
            assert_eq!(topology.pd_address, "pd:2379");
            assert!(topology.pd_tls.is_some());
        }
        Err(_) => panic!("no controller"),
    }
    let mut labelled = settings("sql", vec![]);
    labelled.label_k8s_instance = Some("prod".to_string());
    labelled.pd_address = None;
    match Controller::new(labelled, true) {
        Ok((_, topology)) => {
            assert_eq!(topology.pd_address, "");
            assert!(topology.pd_tls.is_none());
            assert_eq!(topology.label_k8s_instance, Some("prod".to_string()));
            assert_eq!(topology.tidb_group, None);
        }
        Err(_) => panic!("no controller"),
    }
}

#[test]
fn only_tidb_instances_count() {
    let mut pd = tidb("pd", 2379);
    pd.instance_type = InstanceType::PD;
    let found = Controller::tidb_instances(vec![tidb("a", 4000), pd, tidb("b", 4000)]);
    assert_eq!(found, vec![tidb("a", 4000), tidb("b", 4000)]);
}

#[test]
fn cluster_tables_are_collected_once_and_others_everywhere() {
    let mut c = controller("coprocessor", vec![table("CLUSTER_INFO"), table("SLOW_QUERY")]);
    let (started, stopped) = update(&mut c, vec![tidb("a", 4000), tidb("b", 4001)]);
    assert_eq!(started, vec!["a:4000_cluster", "a:4000_instance", "b:4001_instance"]);
    assert!(stopped.is_empty());
    let (again, stopped) = update(&mut c, vec![tidb("a", 4000), tidb("b", 4001)]);
    assert!(again.is_empty() && stopped.is_empty());
    let (started, stopped) = update(&mut c, vec![tidb("b", 4001)]);
    assert_eq!(started, vec!["b:4001_cluster"]);
    let mut gone = stopped.clone();
    gone.sort();
    assert_eq!(gone, vec!["a:4000_cluster", "a:4000_instance"]);
    assert_eq!(keys(&c), vec!["b:4001_cluster", "b:4001_instance"]);
    assert_eq!(c.tidb_components, vec![tidb("b", 4001)]);
}

#[test]
fn nothing_is_started_without_tables_or_instances() {
    let mut none = controller("sql", vec![]);
    assert!(update(&mut none, vec![tidb("a", 4000)]).0.is_empty());
    let mut cluster = controller("sql", vec![table("CLUSTER_INFO")]);
    assert!(update(&mut cluster, vec![]).0.is_empty());
    assert_eq!(update(&mut cluster, vec![tidb("a", 1), tidb("b", 1)]).0, vec!["a:1_cluster"]);
}

#[test]
fn a_start_that_failed_is_tried_again() {
    let mut c = controller("sql", vec![table("PROCESSLIST")]);
    let mut change = c.begin_update(vec![tidb("a", 4000), tidb("b", 4000)]);
    assert_eq!(c.next_start(&mut change).map(|s| s.key), Some("a:4000_instance".to_string()));
    let second = c.next_start(&mut change);
    assert_eq!(second.map(|s| s.key), Some("b:4000_instance".to_string()));
    c.started("b:4000_instance".to_string(), 1);
    assert!(c.next_start(&mut change).is_none());
    assert!(c.finish_update(change).is_empty());
    let (started, _) = update(&mut c, vec![tidb("a", 4000), tidb("b", 4000)]);
    assert_eq!(started, vec!["a:4000_instance"]);
}

#[test]
fn only_the_collectors_of_an_instance_stop_with_it() {
    let mut c = controller("sql", vec![table("PROCESSLIST")]);
    update(&mut c, vec![tidb("127.0.0.1", 400), tidb("127.0.0.1", 4000), tidb("b", 400)]);
    let (_, stopped) = update(&mut c, vec![tidb("127.0.0.1", 4000), tidb("b", 400)]);
    assert_eq!(stopped, vec!["127.0.0.1:400_instance"]);
    assert_eq!(keys(&c), vec!["127.0.0.1:4000_instance", "b:400_instance"]);
    assert!(c.stop_collector_by_instance("127.0.0.1:40").is_empty());
    assert_eq!(c.stop_collector_by_instance("b:400"), vec!["b:400_instance"]);
    assert_eq!(keys(&c), vec!["127.0.0.1:4000_instance"]);
}

#[test]
fn both_collectors_of_an_instance_stop_with_it() {
    let mut c = controller("sql", vec![table("CLUSTER_LOAD"), table("PROCESSLIST")]);
    update(&mut c, vec![tidb("a", 1), tidb("b", 1)]);
    assert_eq!(c.stop_collector_by_instance("a:1"), vec!["a:1_cluster", "a:1_instance"]);
    assert_eq!(keys(&c), vec!["b:1_instance"]);
}

#[test]
fn one_cluster_collector_runs_whatever_the_order() {
    let mut c = controller("sql", vec![table("CLUSTER_LOAD")]);
    assert_eq!(update(&mut c, vec![tidb("a", 1), tidb("b", 1)]).0, vec!["a:1_cluster"]);
    let (started, stopped) = update(&mut c, vec![tidb("b", 1), tidb("a", 1)]);
    assert!(started.is_empty() && stopped.is_empty());
    assert_eq!(keys(&c), vec!["a:1_cluster"]);
    let (started, stopped) = update(&mut c, vec![tidb("c", 1), tidb("b", 1)]);
    assert_eq!(started, vec!["c:1_cluster"]);
    assert_eq!(stopped, vec!["a:1_cluster"]);
    assert_eq!(keys(&c), vec!["c:1_cluster"]);
}

#[test]
fn collectors_are_configured_for_their_instance() {
    let sql = controller("sql", vec![table("PROCESSLIST")]);
    let mut change = sql.begin_update(vec![tidb("a", 4000)]);
    match sql.next_start(&mut change) {
        Some(start) => {
            assert_eq!(start.method, CollectionMethod::Sql);
            assert_eq!(start.config.instance, "a:4000");
            assert_eq!(start.config.tables, vec![table("PROCESSLIST")]);
            match start.config.config_type {
                CollectorConfigType::Sql { database_config } => {
                    assert_eq!(database_config.host, "a");
                    assert_eq!(database_config.port, 4000);
                    assert_eq!(database_config.username, "root");
                }
                _ => panic!("no database"),
            }
        }
        None => panic!("nothing to start"),
    }
    let coprocessor = controller("coprocessor", vec![table("CLUSTER_INFO")]);
    let mut change = coprocessor.begin_update(vec![tidb("a", 4000)]);
    match coprocessor.next_start(&mut change) {
        Some(start) => assert_eq!(
            start.config.config_type,
            CollectorConfigType::Coprocessor { host: "a".to_string(), port: 4000 }
        ),
        None => panic!("nothing to start"),
    }
}

#[test]
fn collectors_can_be_stopped() {
    let mut c = controller("sql", vec![table("PROCESSLIST")]);
    update(&mut c, vec![tidb("a", 1), tidb("b", 1)]);
    match c.stop_collector("a:1_instance") {
        Some(task) => assert_eq!(task.table_count, 1),
        None => panic!("not running"),
    }
    assert!(c.stop_collector("a:1_instance").is_none());
    assert_eq!(c.shutdown_all_collectors(), vec!["b:1_instance"]);
    assert_eq!(c.running_collectors.len(), 0);
}

#[test]
fn statistics_count_collectors_and_tables() {
    let mut c = controller("coprocessor", vec![table("CLUSTER_INFO"), table("SLOW_QUERY")]);
    update(&mut c, vec![tidb("a", 1), tidb("b", 1)]);
    let stats = c.get_collector_statistics();
    let number = |n: u64| Value::Number(Number::PosInt(n));
    let text = |s: &str| Value::Text(s.to_string());
    assert_eq!(stats.len(), 4);
    assert_eq!(stats.get("total_collectors"), Some(&number(3)));
    assert_eq!(
        stats.get("collector_types"),
        Some(&Value::Object(vec![("coprocessor".to_string(), number(3))]))
    );
    assert_eq!(
        stats.get("tables_by_type"),
        Some(&Value::Object(vec![("coprocessor".to_string(), number(3))]))
    );
    assert_eq!(
        stats.get("supported_methods"),
        Some(&Value::Array(vec![text("sql"), text("coprocessor")]))
    );
    let idle = controller("sql", vec![]);
    assert_eq!(
        idle.get_collector_statistics().get("collector_types"),
        Some(&Value::Object(vec![]))
    );
}

#[test]
fn the_first_table_sets_the_pace() {
    assert_eq!(task_interval(&vec![table("A")]), 1800);
    let mut quick = table("B");
    quick.collection_interval = "custom=17".to_string();
    assert_eq!(task_interval(&vec![quick, table("A")]), 17);
}

#[test]
fn disabled_tables_are_left_out() {
    let c = controller("coprocessor", vec![table("CLUSTER_INFO")]);
    let mut change = c.begin_update(vec![tidb("a", 4000)]);
    let start = match c.next_start(&mut change) {
        Some(start) => start,
        None => panic!("nothing to start"),
    };
    let collector = match CollectorFactory::create_collector(start.method, start.config) {
        Ok(collector) => collector,
        Err(_) => panic!("no collector"),
    };
    assert!(is_collected(&collector, &table("CLUSTER_INFO")));
    assert!(!is_collected(&collector, &table("PROCESSLIST")));
    let mut disabled = table("CLUSTER_INFO");
    disabled.enabled = false;
    assert!(!is_collected(&collector, &disabled));
    let tables = vec![table("CLUSTER_INFO"), table("PROCESSLIST"), disabled];
    assert_eq!(collected_tables(&collector, &tables), vec![true, false, false]);
}

#[test]
fn every_row_is_an_event() {
    let mut one = StringMap::new();
    one.insert("ID".to_string(), Value::Null);
    let result = CollectionResult {
        data: vec![one, StringMap::new()],
        metadata: CollectionMetadata {
            instance: "a:4000".to_string(),
            table_config: table("PROCESSLIST"),
            collection_method: CollectionMethod::Sql,
            timestamp: Timestamp { seconds: 0, nanos: 0 },
            row_count: 2,
            duration_ms: 1,
            extra: StringMap::new(),
        },
    };
    let events = result_events(&result);
    assert_eq!(events.len(), 2);
    assert_eq!(events[0].len(), 9);
    assert_eq!(events[0][8], ("ID".to_string(), Value::Null));
    assert_eq!(events[1].len(), 8);
}

#[test]
fn instances_have_addresses_of_their_own() {
    assert_eq!(tidb("db", 4000).address_text(), "db:4000");
    assert_ne!(tidb("db", 4000).address_text(), tidb("db", 400).address_text());
    assert_ne!(tidb("db:4", 0).address_text(), tidb("db", 40).address_text());
    let mut c = controller("sql", vec![table("CLUSTER_LOAD"), table("PROCESSLIST")]);
    let (started, _) = update(&mut c, vec![tidb("a", 1), tidb("a", 10)]);
    let mut distinct = started.clone();
    distinct.sort();
    distinct.dedup();
    assert_eq!(distinct.len(), started.len());
    assert_eq!(started.len(), 3);
}

#[test]
fn a_round_collects_in_order_and_then_checks_the_health() {
    let collected = vec![false, true, false, true, false];
    let mut seen = Vec::new();
    let mut from = 0;
    loop {
        let action = next_action(&collected, from);
        seen.push(action);
        match action {
            RoundAction::Collect(place) => from = place + 1,
            RoundAction::CheckHealth => break,
        }
    }
    assert_eq!(
        seen,
        vec![RoundAction::Collect(1), RoundAction::Collect(3), RoundAction::CheckHealth]
    );
    assert_eq!(next_collected(&collected, 2), Some(3));
    assert_eq!(next_collected(&collected, 4), None);
    assert_eq!(next_collected(&collected, 9), None);
    assert_eq!(next_action(&vec![], 0), RoundAction::CheckHealth);
}
