use dr_metrix::collector::CollectorConfig;
use dr_metrix::mongo::{mongo_readings, ServerStatus, StatusSection, WiredTigerStatus};
use dr_metrix::postgres::{
    database_stats, get_i64, get_str, keep_objects, lock_counts, row_json_query, table_stats,
    ColumnValue, JsonRow, PoolStatus, SQL_DB_STATS,
};
use std::time::Duration;

fn section(entries: &[(&str, Option<i64>)]) -> StatusSection {
    StatusSection { entries: entries.iter().map(|(k, v)| (k.to_string(), *v)).collect() }
}

#[test]
fn collector_config_default_and_clone() {
    let c = CollectorConfig::default();
    assert_eq!(c.namespace, "");
    assert_eq!(c.collect_interval, Duration::from_secs(15));
    assert!(c.const_labels.is_empty());
    let mut c2 = c.clone();
    c2.namespace = "myapp".into();
    c2.const_labels.insert("env".into(), "prod".into());
    let c3 = c2.clone();
    assert_eq!(c3.namespace, "myapp");
    assert_eq!(c3.const_labels.get("env").map(|s| s.as_str()), Some("prod"));
    assert_eq!(c3.collect_interval, Duration::from_secs(15));
}

#[test]
fn mongo_full_status() {
    let status = ServerStatus {
        connections: Some(section(&[("current", Some(8)), ("available", Some(100)), ("totalCreated", None)])),
        opcounters: Some(section(&[("insert", Some(1)), ("query", Some(45000)), ("command", Some(3))])),
        network: Some(section(&[("bytesIn", Some(10)), ("bytesOut", Some(20)), ("numRequests", Some(30))])),
        mem: Some(section(&[("resident", Some(40)), ("virtual", Some(-2))])),
        wired_tiger: Some(WiredTigerStatus {
            cache: Some(section(&[
                ("bytes currently in the cache", Some(120)),
                ("maximum bytes configured", Some(256)),
                ("tracked dirty bytes in the cache", Some(7)),
            ])),
        }),
    };
    let r = mongo_readings(&status);
    assert_eq!(r.connections, Some((8, 100, 0)));
    assert_eq!(
        r.opcounters,
        Some(vec![("insert", 1), ("query", 45000), ("update", 0), ("delete", 0), ("getmore", 0), ("command", 3)])
    );
    assert_eq!(r.network, Some((10, 20, 30)));
    assert_eq!(r.memory_bytes, Some((40 * 1048576, -2 * 1048576)));
    assert_eq!(r.wt_cache, Some((120, 256, 7)));
}

#[test]
fn mongo_missing_sections_leave_gauges() {
    let status = ServerStatus {
        connections: None,
        opcounters: None,
        network: Some(section(&[])),
        mem: None,
        wired_tiger: Some(WiredTigerStatus { cache: None }),
    };
    let r = mongo_readings(&status);
    assert_eq!(r.connections, None);
    assert_eq!(r.opcounters, None);
    assert_eq!(r.network, Some((0, 0, 0)));
    assert_eq!(r.memory_bytes, None);
    assert_eq!(r.wt_cache, None);
}

fn row(cols: Vec<(&str, ColumnValue)>) -> JsonRow {
    JsonRow { columns: cols.into_iter().map(|(k, v)| (k.to_string(), v)).collect() }
}

#[test]
fn postgres_column_reading() {
    let r = row(vec![
        ("a", ColumnValue::PosInt(5)),
        ("b", ColumnValue::PosInt(u64::MAX)),
        ("c", ColumnValue::NegInt(-3)),
        ("d", ColumnValue::Float(2)),
        ("e", ColumnValue::Text("x".into())),
        ("f", ColumnValue::Other),
        ("a", ColumnValue::PosInt(6)),
    ]);
    assert_eq!(get_i64(&r, "a"), 5);
    assert_eq!(get_i64(&r, "b"), i64::MAX);
    assert_eq!(get_i64(&r, "c"), -3);
    assert_eq!(get_i64(&r, "d"), 2);
    assert_eq!(get_i64(&r, "e"), 0);
    assert_eq!(get_i64(&r, "f"), 0);
    assert_eq!(get_i64(&r, "zz"), 0);
    assert_eq!(get_str(&r, "e"), "x");
    assert_eq!(get_str(&r, "a"), "");
    assert_eq!(get_str(&r, "zz"), "");
}

#[test]
fn postgres_stat_rows() {
    let rows = vec![row(vec![
        ("datname", ColumnValue::Text("app".into())),
        ("numbackends", ColumnValue::PosInt(4)),
        ("xact_commit", ColumnValue::PosInt(100)),
        ("xact_rollback", ColumnValue::PosInt(2)),
        ("blks_hit", ColumnValue::PosInt(9)),
        ("blks_read", ColumnValue::PosInt(1)),
        ("size_bytes", ColumnValue::PosInt(150000000)),
    ])];
    let s = database_stats(&rows);
    assert_eq!(s.len(), 1);
    assert_eq!(s[0].database, "app");
    assert_eq!(
        (s[0].numbackends, s[0].xact_commit, s[0].xact_rollback, s[0].blks_hit, s[0].blks_read, s[0].size_bytes),
        (4, 100, 2, 9, 1, 150000000)
    );
    let t = table_stats(&vec![row(vec![
        ("schemaname", ColumnValue::Text("public".into())),
        ("relname", ColumnValue::Text("users".into())),
        ("seq_scan", ColumnValue::PosInt(12400)),
        ("idx_scan", ColumnValue::Other),
        ("n_live_tup", ColumnValue::PosInt(3)),
        ("n_dead_tup", ColumnValue::Float(1)),
    ])]);
    assert_eq!((t[0].schema.as_str(), t[0].table.as_str()), ("public", "users"));
    assert_eq!((t[0].seq_scan, t[0].idx_scan, t[0].live_tup, t[0].dead_tup), (12400, 0, 3, 1));
    let l = lock_counts(&vec![row(vec![
        ("mode", ColumnValue::Text("AccessShareLock".into())),
        ("cnt", ColumnValue::PosInt(2)),
    ])]);
    assert_eq!((l[0].mode.as_str(), l[0].count), ("AccessShareLock", 2));
}

#[test]
fn postgres_wrapped_query_and_objects() {
    assert_eq!(
        row_json_query("SELECT 1"),
        "SELECT row_to_json(t)::text AS row_json FROM (SELECT 1) t"
    );
    let q = row_json_query(SQL_DB_STATS);
    assert!(q.ends_with(") t") && q.contains("pg_stat_database"));
    let kept = keep_objects(vec![Some(row(vec![])), None, Some(row(vec![("x", ColumnValue::Other)]))]);
    assert_eq!(kept.len(), 2);
    assert_eq!(kept[1].columns.len(), 1);
}

#[test]
fn postgres_pool_figures() {
    let d = PoolStatus::from_deadpool(10, 7, 3);
    assert_eq!((d.max_size, d.available, d.in_use), (10, 3, 4));
    let d = PoolStatus::from_deadpool(10, 2, 5);
    assert_eq!(d.in_use, 0);
    let d = PoolStatus::from_deadpool(1 << 32, 0, (1 << 32) + 1);
    assert_eq!((d.max_size, d.available), (0, 1));
    let r = PoolStatus::from_r2d2(8, 5, 1);
    assert_eq!((r.max_size, r.available, r.in_use), (8, 1, 4));
    assert_eq!(PoolStatus::from_r2d2(8, 1, 5).in_use, 0);
    let u = PoolStatus::unknown();
    assert_eq!(u.gauge_values(), (0, 0, 0));
    assert_eq!(r.gauge_values(), (4, 1, 8));
}
