use dr_metrix::info_parser::{parse_info, RedisInfo};
use dr_metrix::redis::{keyspace_label, keyspace_samples};

const SAMPLE: &str = "# Server\r\nredis_version:7.2.4\r\n\r\n# Clients\r\nconnected_clients:12\r\nblocked_clients:1\r\n\r\n# Memory\r\nused_memory:5242880\r\nused_memory_rss:7340032\r\nmem_fragmentation_ratio:1.40\r\n\r\n# Stats\r\ntotal_commands_processed:98765\r\nkeyspace_hits:9700\r\nkeyspace_misses:300\r\nevicted_keys:4\r\n\r\n# Replication\r\nrole:master\r\nconnected_slaves:2\r\nmaster_repl_offset:123456\r\n\r\n# Keyspace\r\ndb0:keys=15420,expires=5,avg_ttl=0\r\ndb3:keys=7,expires=0,avg_ttl=0\r\n";

#[test]
fn parses_full_info_reply() {
    let info = parse_info(SAMPLE);
    assert_eq!(info.connected_clients, 12);
    assert_eq!(info.blocked_clients, 1);
    assert_eq!(info.used_memory, 5242880);
    assert_eq!(info.used_memory_rss, 7340032);
    assert_eq!(info.mem_fragmentation_ratio_text, "1.40");
    assert_eq!(info.total_commands_processed, 98765);
    assert_eq!(info.keyspace_hits, 9700);
    assert_eq!(info.keyspace_misses, 300);
    assert_eq!(info.evicted_keys, 4);
    assert_eq!(info.connected_slaves, 2);
    assert_eq!(info.replication_offset, 123456);
    assert_eq!(info.keyspace, vec![(0, 15420, 5), (3, 7, 0)]);
}

#[test]
fn empty_text_gives_defaults() {
    let info = parse_info("");
    let d = RedisInfo::default();
    assert_eq!(info.connected_clients, d.connected_clients);
    assert_eq!(info.connected_clients, 0);
    assert_eq!(info.mem_fragmentation_ratio_text, "");
    assert!(info.keyspace.is_empty());
}

#[test]
fn last_occurrence_wins() {
    let info = parse_info("connected_clients:3\nconnected_clients:9\n");
    assert_eq!(info.connected_clients, 9);
}

#[test]
fn comment_and_blank_lines_are_skipped() {
    let info = parse_info("# connected_clients:5\n   \n\t# x:1\nblocked_clients:2");
    assert_eq!(info.connected_clients, 0);
    assert_eq!(info.blocked_clients, 2);
}

#[test]
fn bad_numbers_read_as_zero() {
    let info = parse_info("connected_clients:12abc\nused_memory:99999999999999999999\nevicted_keys:-7\nkeyspace_hits:+5");
    assert_eq!(info.connected_clients, 0);
    assert_eq!(info.used_memory, 0);
    assert_eq!(info.evicted_keys, -7);
    assert_eq!(info.keyspace_hits, 5);
}

#[test]
fn values_are_trimmed_keys_are_not() {
    let info = parse_info("  connected_clients:   42   \nused_memory :7\n");
    assert_eq!(info.connected_clients, 42);
    assert_eq!(info.used_memory, 0);
}

#[test]
fn keyspace_fields_in_any_order() {
    let info = parse_info("db2:expires=3,keys=10\ndb4:avg_ttl=5\ndb5:keys= 3,expires=x");
    assert_eq!(info.keyspace, vec![(2, 10, 3), (4, 0, 0), (5, 0, 0)]);
}

#[test]
fn bad_keyspace_index_falls_back_to_settings() {
    let info = parse_info("dbx:keys=1\ndb-1:keys=1\ndb:keys=2\ndb99999999999:keys=1");
    assert!(info.keyspace.is_empty());
    let info = parse_info("db+7:keys=1");
    assert_eq!(info.keyspace, vec![(7, 1, 0)]);
}

#[test]
fn unknown_keys_and_lines_without_colon_are_ignored() {
    let info = parse_info("role:master\nnot a setting\nconnected_slaves:1");
    assert_eq!(info.connected_slaves, 1);
    assert_eq!(info.connected_clients, 0);
}

#[test]
fn value_after_first_colon() {
    let info = parse_info("connected_clients:4:5\nmem_fragmentation_ratio: 1.5:x ");
    assert_eq!(info.connected_clients, 0);
    assert_eq!(info.mem_fragmentation_ratio_text, "1.5:x");
}

#[test]
fn keyspace_labels_and_samples() {
    assert_eq!(keyspace_label(0), "db0");
    assert_eq!(keyspace_label(4294967295), "db4294967295");
    let info = parse_info("db0:keys=15420,expires=5,avg_ttl=0\ndb12:keys=1,expires=1");
    let samples = keyspace_samples(&info);
    assert_eq!(
        samples,
        vec![("db0".to_string(), 15420, 5), ("db12".to_string(), 1, 1)]
    );
}

#[test]
fn written_keyspace_line_reads_back() {
    for (db, keys, expires) in [(0u32, 0i64, 0i64), (7, 15420, 5), (4294967295, i64::MAX, 3)] {
        let line = format!("{}:keys={},expires={},avg_ttl=0", keyspace_label(db), keys, expires);
        let info = parse_info(&line);
        assert_eq!(info.keyspace, vec![(db, keys, expires)]);
    }
}

#[test]
fn concatenated_texts_read_in_turn() {
    let a = "connected_clients:1\ndb0:keys=1,expires=0";
    let b = "connected_clients:2\ndb1:keys=2,expires=0";
    let joined = format!("{a}\n{b}");
    let info = parse_info(&joined);
    assert_eq!(info.connected_clients, 2);
    assert_eq!(info.keyspace, vec![(0, 1, 0), (1, 2, 0)]);
}

#[test]
fn neutral_lines_change_nothing() {
    let base = "connected_clients:3\ndb0:keys=4,expires=1";
    let with_noise = "role:master\nconnected_clients:3\n# Keyspace\nno colon here\ndbx:keys=9\n\ndb0:keys=4,expires=1\nused_memory :5";
    let a = parse_info(base);
    let b = parse_info(with_noise);
    assert_eq!(a.connected_clients, b.connected_clients);
    assert_eq!(a.used_memory, b.used_memory);
    assert_eq!(a.keyspace, b.keyspace);
}

#[test]
fn concatenation_field_by_field() {
    let a = "connected_clients:1\nused_memory:10\ndb0:keys=1,expires=0";
    let b = "used_memory:20\ndb2:keys=5,expires=2";
    let c = parse_info(&format!("{a}\n{b}"));
    let pa = parse_info(a);
    let pb = parse_info(b);
    assert_eq!(c.connected_clients, pa.connected_clients);
    assert_eq!(c.used_memory, pb.used_memory);
    let mut ks = pa.keyspace.clone();
    ks.extend(pb.keyspace.clone());
    assert_eq!(c.keyspace, ks);
}
