use tidb_lake::mocked_topsql::controller::{Batch, Controller, Sending};
use tidb_lake::mocked_topsql::events::{
    create_event_for_tidb_sql, create_event_for_tikv_region, create_event_for_tikv_sql,
    region_events, tidb_events, tikv_events, RegionSample, TidbSample, TikvSample,
};
use tidb_lake::mocked_topsql::samples::{PLAN_CONSTANT, SQL_CONSTANT};
use tidb_lake::random::{
    generate_random_bigint, generate_random_digest, generate_random_int, generate_random_string,
};
use tidb_lake::value::{Number, Value};

fn names(event: &Vec<(String, Value)>) -> Vec<&str> {
    event.iter().map(|f| f.0.as_str()).collect()
}

fn get<'a>(event: &'a Vec<(String, Value)>, name: &str) -> &'a Value {
    match event.iter().find(|f| f.0 == name) {
        Some(f) => &f.1,
        None => panic!("no field"),
    }
}

fn text(s: &str) -> Value {
    Value::Text(s.to_string())
}

fn digests() -> Vec<String> {
    (0..100).map(|i| format!("{:064}", i)).collect()
}

fn small(start: i32) -> Vec<i32> {
    (start..start + 100).collect()
}

fn large(start: i64) -> Vec<i64> {
    (start..start + 100).collect()
}

fn column(event: &Vec<(String, Value)>, name: &str) -> Value {
    match get(event, "_schema_metadata") {
        Value::Object(columns) => match columns.iter().find(|c| c.0 == name) {
            Some(c) => c.1.clone(),
            None => panic!("no column"),
        },
        _ => panic!("no description"),
    }
}

fn described(sql_type: &str, nullable: bool) -> Value {
    Value::Object(vec![
        ("mysql_type".to_string(), text(sql_type)),
        ("is_nullable".to_string(), Value::Bool(nullable)),
    ])
}

#[test]
fn random_values_have_their_sizes() {
    assert_eq!(generate_random_int().len(), 100);
    assert_eq!(generate_random_bigint().len(), 100);
    let strings = generate_random_string(3, 5);
    assert_eq!(strings.len(), 3);
    for s in &strings {
        assert_eq!(s.len(), 5);
        assert!(s.chars().all(|c| c.is_ascii_alphanumeric()));
    }
    assert_eq!(generate_random_string(0, 5).len(), 0);
    assert_eq!(generate_random_string(-1, 5).len(), 0);
    let digests = generate_random_digest();
    assert_eq!(digests.len(), 100);
    assert!(digests.iter().all(|d| d.len() == 64));
    assert_ne!(digests[0], digests[1]);
    assert!(generate_random_int().iter().any(|n| *n != 0));
    assert!(generate_random_bigint().iter().any(|n| *n != 0));
}

#[test]
fn events_about_statements_on_tidb() {
    let sample = TidbSample {
        sql_digest: digests(),
        plan_digest: digests(),
        cpu_time: small(-50),
        exec_count: large(0),
        duration_sum: large(1000),
        duration_count: large(2000),
    };
    let events = tidb_events(&sample, "2024-01-01T00:00:00+00:00");
    assert_eq!(events.len(), 100);
    let event = &events[7];
    assert_eq!(
        names(event),
        vec![
            "_vector_table",
            "_vector_source_table",
            "_vector_source_schema",
            "_vector_instance",
            "_vector_timestamp",
            "_schema_metadata",
            "sql_digest",
            "plan_digest",
            "sql",
            "plan",
            "cpu_time_ms",
            "stmt_exec_count",
            "stmt_duration_sum_ns",
            "stmt_duration_count",
        ]
    );
    assert_eq!(get(event, "_vector_table"), &text("tidb_topsql"));
    assert_eq!(get(event, "_vector_source_table"), &text("tidb_topsql"));
    assert_eq!(get(event, "_vector_source_schema"), &text("test"));
    assert_eq!(get(event, "_vector_instance"), &text("127.0.0.7"));
    assert_eq!(get(event, "_vector_timestamp"), &text("2024-01-01T00:00:00+00:00"));
    assert_eq!(get(event, "sql_digest"), &text(&format!("{:064}", 7)));
    assert_eq!(get(event, "sql"), &text(SQL_CONSTANT));
    assert_eq!(get(event, "plan"), &text(PLAN_CONSTANT));
    assert_eq!(get(event, "cpu_time_ms"), &Value::Number(Number::NegInt(-43)));
    assert_eq!(get(event, "stmt_exec_count"), &Value::Number(Number::PosInt(7)));
    assert_eq!(get(event, "stmt_duration_sum_ns"), &Value::Number(Number::PosInt(1007)));
    assert_eq!(get(event, "stmt_duration_count"), &Value::Number(Number::PosInt(2007)));
    assert_eq!(column(event, "sql"), described("text", false));
    assert_eq!(column(event, "cpu_time_ms"), described("int", false));
    assert_eq!(column(event, "stmt_exec_count"), described("bigint", true));
}

#[test]
fn events_about_statements_on_tikv() {
    let sample = TikvSample {
        sql_digest: digests(),
        plan_digest: digests(),
        cpu_time: small(0),
        read_keys: small(100),
        network_in: large(1),
        network_out: large(2),
        logical_read: large(3),
        logical_write: large(4),
    };
    let events = tikv_events(&sample, "now");
    let event = &events[99];
    assert_eq!(event.len(), 17);
    assert_eq!(get(event, "_vector_table"), &text("tikv_topsql"));
    assert_eq!(get(event, "_vector_instance"), &text("127.0.0.99"));
    assert_eq!(get(event, "read_keys"), &Value::Number(Number::PosInt(199)));
    assert_eq!(get(event, "write_keys"), &Value::Number(Number::PosInt(0)));
    assert_eq!(get(event, "network_in_bytes"), &Value::Number(Number::PosInt(100)));
    assert_eq!(get(event, "network_out_bytes"), &Value::Number(Number::PosInt(101)));
    assert_eq!(get(event, "logical_io_read_bytes"), &Value::Number(Number::PosInt(102)));
    assert_eq!(get(event, "logical_io_write_bytes"), &Value::Number(Number::PosInt(103)));
    assert_eq!(column(event, "write_keys"), described("int", false));
    assert_eq!(column(event, "logical_io_write_bytes"), described("bigint", true));
}

#[test]
fn events_about_regions() {
    let sample = RegionSample {
        region_id: small(500),
        cpu_time: small(0),
        read_keys: small(100),
        network_in: large(1),
        network_out: large(2),
        logical_read: large(3),
        logical_write: large(4),
    };
    let events = region_events(&sample, "now");
    let event = &events[0];
    assert_eq!(event.len(), 14);
    assert_eq!(get(event, "_vector_table"), &text("top_region"));
    assert_eq!(get(event, "region_id"), &Value::Number(Number::PosInt(500)));
    assert_eq!(column(event, "region_id"), described("bigint", false));
}

#[test]
fn random_events_share_their_statements() {
    let (events, counts) = create_event_for_tidb_sql(0, "now");
    assert_eq!((events.len(), counts.len()), (100, 100));
    for (event, count) in events.iter().zip(counts.iter()) {
        assert_eq!(get(event, "sql_digest"), get(count, "sql_digest"));
        assert_eq!(get(event, "plan_digest"), get(count, "plan_digest"));
        assert_eq!(get(event, "stmt_exec_count"), get(count, "stmt_exec_count"));
        assert_eq!(get(count, "_vector_table"), &text("tikv_exec_count"));
        assert_eq!(count.len(), 11);
    }
    assert_eq!(create_event_for_tikv_sql(0, "now").len(), 100);
    let regions = create_event_for_tikv_region(0, "now");
    assert_eq!(regions.len(), 100);
    assert_eq!(get(&regions[3], "_vector_timestamp"), &text("now"));
}

#[test]
fn the_constants_are_whole() {
    assert!(SQL_CONSTANT.starts_with("SELECT\n  `tbl_test_001`.`column0`,\n"));
    assert!(SQL_CONSTANT.ends_with("AND `column1` = ?\nLIMIT\n  ?"));
    assert_eq!(SQL_CONSTANT.lines().count(), 75);
    assert!(PLAN_CONSTANT.starts_with("\tProjection   \troot\tdb_test_0001.tbl_test_001.column0, "));
    assert!(PLAN_CONSTANT.contains("\n\t└─Limit      \troot\t\n"));
    assert!(PLAN_CONSTANT.ends_with("udx_column0_useridx_column1(column0, column1)"));
}

fn run(c: &Controller, accepted: &dyn Fn(Sending) -> bool) -> Vec<(u32, Batch)> {
    let mut out = Vec::new();
    let mut sending = c.first_batch();
    while sending.batch != Batch::Finished {
        out.push((sending.round, sending.batch));
        sending = c.next_batch(sending, accepted(sending));
    }
    out
}

#[test]
fn rounds_fit_into_a_minute() {
    let rounds = |interval: u32| Controller::new(5, interval, 1, 1, 0).loop_count();
    assert_eq!(rounds(0), 1);
    assert_eq!(rounds(1), 60);
    assert_eq!(rounds(7), 8);
    assert_eq!(rounds(60), 1);
    assert_eq!(rounds(61), 0);
}

#[test]
fn all_batches_are_sent_in_order() {
    let c = Controller::new(5, 30, 1, 2, 0);
    let one_round = |r: u32| {
        vec![
            (r, Batch::Tikv(0)),
            (r, Batch::Tikv(1)),
            (r, Batch::Tidb(0)),
            (r, Batch::TidbExecCount(0)),
        ]
    };
    let mut expected = one_round(0);
    expected.extend(one_round(1));
    assert_eq!(run(&c, &|_| true), expected);
    assert_eq!(run(&Controller::new(5, 0, 3, 4, 0), &|_| true).len(), 10);
    assert!(run(&Controller::new(5, 1, 0, 0, 0), &|_| true).is_empty());
    assert!(run(&Controller::new(5, 61, 3, 4, 0), &|_| true).is_empty());
    assert_eq!(run(&Controller::new(5, 0, 0, 2, 0), &|_| true).len(), 2);
}

#[test]
fn a_refused_batch_ends_the_instances_of_its_kind() {
    let c = Controller::new(5, 30, 2, 2, 0);
    assert_eq!(
        run(&c, &|_| false),
        vec![
            (0, Batch::Tikv(0)),
            (0, Batch::Tidb(0)),
            (1, Batch::Tikv(0)),
            (1, Batch::Tidb(0)),
        ]
    );
    assert_eq!(
        run(&c, &|s| !matches!(s.batch, Batch::TidbExecCount(0))).len(),
        2 * 4
    );
}

#[test]
fn described_columns_are_fields() {
    let (statements, counts) = create_event_for_tidb_sql(0, "2024-01-01T00:00:00+00:00");
    for event in [&statements[0], &counts[99]] {
        let Value::Object(columns) = get(event, "_schema_metadata") else {
            panic!("no description");
        };
        for column in columns {
            assert!(names(event).contains(&column.0.as_str()));
        }
    }
}
