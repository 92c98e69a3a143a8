//! The metrics each collector exposes: name, help text and label names.
//! Every metric is created with its collector's subsystem and, when the
//! namespace is not empty, that namespace; its full name is then
//! `<namespace>_<subsystem>_<name>`, or `<subsystem>_<name>`.

use vstd::prelude::*;

verus! {

/// Name, help text and label names of one metric.
pub struct MetricDef {
    pub name: &'static str,
    pub help: &'static str,
    pub labels: Vec<&'static str>,
}

/// A metric definition as values: name, help text, label names.
pub open spec fn def_model(d: MetricDef) -> (Seq<char>, Seq<char>, Seq<Seq<char>>) {
    (d.name@, d.help@, d.labels@.map_values(|l: &'static str| l@))
}

/// The values of a list of definitions.
pub open spec fn defs_model(defs: Seq<MetricDef>) -> Seq<(Seq<char>, Seq<char>, Seq<Seq<char>>)> {
    defs.map_values(|d: MetricDef| def_model(d))
}

/// No two entries of `names` are equal.
pub open spec fn distinct(names: Seq<Seq<char>>) -> bool {
    forall|i: int, j: int|
        0 <= i < names.len() && 0 <= j < names.len() && i != j ==> names[i] != names[j]
}

/// The names of a table of definitions.
pub open spec fn names_of(table: Seq<(Seq<char>, Seq<char>, Seq<Seq<char>>)>) -> Seq<Seq<char>> {
    table.map_values(|t: (Seq<char>, Seq<char>, Seq<Seq<char>>)| t.0)
}

/// The full name of metric `name` of `subsystem` under `namespace`, as the
/// Prometheus registry shows it.
pub open spec fn full_name(namespace: Seq<char>, subsystem: Seq<char>, name: Seq<char>) -> Seq<char> {
    if namespace.len() == 0 {
        subsystem + "_"@ + name
    } else {
        namespace + "_"@ + subsystem + "_"@ + name
    }
}

/// The full names of the metrics of `names` under `namespace` and
/// `subsystem`.
pub open spec fn full_names(namespace: Seq<char>, subsystem: Seq<char>, names: Seq<Seq<char>>) -> Seq<Seq<char>> {
    names.map_values(|n: Seq<char>| full_name(namespace, subsystem, n))
}

/// The subsystem of the PostgreSQL metrics.
pub const POSTGRES_SUBSYSTEM: &'static str = "postgres";

/// The PostgreSQL metrics, in order.
pub open spec fn postgres_table() -> Seq<(Seq<char>, Seq<char>, Seq<Seq<char>>)> {
    seq![
        ("pool_active"@, "Active pool connections"@, seq![]),
        ("pool_idle"@, "Idle pool connections"@, seq![]),
        ("pool_max"@, "Maximum pool size"@, seq![]),
        ("db_numbackends"@, "Active backends per database"@, seq!["database"@]),
        ("db_xact_commit"@, "Committed transactions (snapshot)"@, seq!["database"@]),
        ("db_xact_rollback"@, "Rolled-back transactions (snapshot)"@, seq!["database"@]),
        ("db_blks_hit"@, "Buffer hits (snapshot)"@, seq!["database"@]),
        ("db_blks_read"@, "Disk blocks read (snapshot)"@, seq!["database"@]),
        ("db_size_bytes"@, "Database size in bytes"@, seq!["database"@]),
        ("table_seq_scan"@, "Sequential scans (snapshot)"@, seq!["schema"@, "table"@]),
        ("table_idx_scan"@, "Index scans (snapshot)"@, seq!["schema"@, "table"@]),
        ("table_live_tup"@, "Estimated live rows"@, seq!["schema"@, "table"@]),
        ("table_dead_tup"@, "Estimated dead rows"@, seq!["schema"@, "table"@]),
        ("lock_count"@, "Active locks by mode"@, seq!["mode"@]),
        ("query_duration_seconds"@, "Application query duration"@, seq!["query"@]),
        ("rows_returned"@, "Rows returned per application query"@, seq!["query"@]),
    ]
}

/// Name, help text and label names of each PostgreSQL metric, in the
/// order of [`postgres_table`].
pub fn postgres_metrics() -> (defs: Vec<MetricDef>)
    ensures
        defs_model(defs@) == postgres_table(),
{
    let defs = vec![
        MetricDef { name: "pool_active", help: "Active pool connections", labels: vec![] },
        MetricDef { name: "pool_idle", help: "Idle pool connections", labels: vec![] },
        MetricDef { name: "pool_max", help: "Maximum pool size", labels: vec![] },
        MetricDef { name: "db_numbackends", help: "Active backends per database", labels: vec!["database"] },
        MetricDef { name: "db_xact_commit", help: "Committed transactions (snapshot)", labels: vec!["database"] },
        MetricDef { name: "db_xact_rollback", help: "Rolled-back transactions (snapshot)", labels: vec!["database"] },
        MetricDef { name: "db_blks_hit", help: "Buffer hits (snapshot)", labels: vec!["database"] },
        MetricDef { name: "db_blks_read", help: "Disk blocks read (snapshot)", labels: vec!["database"] },
        MetricDef { name: "db_size_bytes", help: "Database size in bytes", labels: vec!["database"] },
        MetricDef { name: "table_seq_scan", help: "Sequential scans (snapshot)", labels: vec!["schema", "table"] },
        MetricDef { name: "table_idx_scan", help: "Index scans (snapshot)", labels: vec!["schema", "table"] },
        MetricDef { name: "table_live_tup", help: "Estimated live rows", labels: vec!["schema", "table"] },
        MetricDef { name: "table_dead_tup", help: "Estimated dead rows", labels: vec!["schema", "table"] },
        MetricDef { name: "lock_count", help: "Active locks by mode", labels: vec!["mode"] },
        MetricDef { name: "query_duration_seconds", help: "Application query duration", labels: vec!["query"] },
        MetricDef { name: "rows_returned", help: "Rows returned per application query", labels: vec!["query"] },
    ];
    assert(defs_model(defs@) =~~= postgres_table());
    defs
}

/// The subsystem of the Redis metrics.
pub const REDIS_SUBSYSTEM: &'static str = "redis";

/// The Redis metrics, in order.
pub open spec fn redis_table() -> Seq<(Seq<char>, Seq<char>, Seq<Seq<char>>)> {
    seq![
        ("pool_connections"@, "Number of connected pool clients"@, seq![]),
        ("connected_clients"@, "Number of connected Redis clients"@, seq![]),
        ("blocked_clients"@, "Number of blocked Redis clients"@, seq![]),
        ("used_memory_bytes"@, "Redis used memory in bytes"@, seq![]),
        ("used_memory_rss"@, "Redis RSS memory in bytes"@, seq![]),
        ("mem_fragmentation_ratio"@, "Redis memory fragmentation ratio"@, seq![]),
        ("keyspace_hits"@, "Redis keyspace hits (snapshot)"@, seq![]),
        ("keyspace_misses"@, "Redis keyspace misses (snapshot)"@, seq![]),
        ("evicted_keys"@, "Redis evicted keys (snapshot)"@, seq![]),
        ("total_commands_processed"@, "Total Redis commands processed (snapshot)"@, seq![]),
        ("db_keys"@, "Number of keys per database"@, seq!["db"@]),
        ("db_expires"@, "Number of expiring keys per database"@, seq!["db"@]),
        ("replication_offset"@, "Redis master replication offset"@, seq![]),
        ("connected_slaves"@, "Number of connected Redis replicas"@, seq![]),
        ("command_duration_seconds"@, "Application-level Redis command duration"@, seq!["cmd"@]),
    ]
}

/// Name, help text and label names of each Redis metric, in the
/// order of [`redis_table`].
pub fn redis_metrics() -> (defs: Vec<MetricDef>)
    ensures
        defs_model(defs@) == redis_table(),
{
    let defs = vec![
        MetricDef { name: "pool_connections", help: "Number of connected pool clients", labels: vec![] },
        MetricDef { name: "connected_clients", help: "Number of connected Redis clients", labels: vec![] },
        MetricDef { name: "blocked_clients", help: "Number of blocked Redis clients", labels: vec![] },
        MetricDef { name: "used_memory_bytes", help: "Redis used memory in bytes", labels: vec![] },
        MetricDef { name: "used_memory_rss", help: "Redis RSS memory in bytes", labels: vec![] },
        MetricDef { name: "mem_fragmentation_ratio", help: "Redis memory fragmentation ratio", labels: vec![] },
        MetricDef { name: "keyspace_hits", help: "Redis keyspace hits (snapshot)", labels: vec![] },
        MetricDef { name: "keyspace_misses", help: "Redis keyspace misses (snapshot)", labels: vec![] },
        MetricDef { name: "evicted_keys", help: "Redis evicted keys (snapshot)", labels: vec![] },
        MetricDef { name: "total_commands_processed", help: "Total Redis commands processed (snapshot)", labels: vec![] },
        MetricDef { name: "db_keys", help: "Number of keys per database", labels: vec!["db"] },
        MetricDef { name: "db_expires", help: "Number of expiring keys per database", labels: vec!["db"] },
        MetricDef { name: "replication_offset", help: "Redis master replication offset", labels: vec![] },
        MetricDef { name: "connected_slaves", help: "Number of connected Redis replicas", labels: vec![] },
        MetricDef { name: "command_duration_seconds", help: "Application-level Redis command duration", labels: vec!["cmd"] },
    ];
    assert(defs_model(defs@) =~~= redis_table());
    defs
}

/// The subsystem of the MongoDB metrics.
pub const MONGO_SUBSYSTEM: &'static str = "mongo";

/// The MongoDB metrics, in order.
pub open spec fn mongo_table() -> Seq<(Seq<char>, Seq<char>, Seq<Seq<char>>)> {
    seq![
        ("connections_current"@, "Current MongoDB connections"@, seq![]),
        ("connections_available"@, "Available MongoDB connections"@, seq![]),
        ("connections_total"@, "Total MongoDB connections created"@, seq![]),
        ("opcounters_total"@, "MongoDB operation counters (snapshot)"@, seq!["op"@]),
        ("network_bytes_in"@, "Network bytes received"@, seq![]),
        ("network_bytes_out"@, "Network bytes sent"@, seq![]),
        ("network_requests"@, "Network requests received"@, seq![]),
        ("resident_memory_bytes"@, "Resident memory usage in bytes"@, seq![]),
        ("virtual_memory_bytes"@, "Virtual memory usage in bytes"@, seq![]),
        ("wt_cache_bytes_in_use"@, "WiredTiger cache bytes currently in use"@, seq![]),
        ("wt_cache_bytes_max"@, "WiredTiger cache maximum bytes"@, seq![]),
        ("wt_cache_dirty_bytes"@, "WiredTiger cache dirty bytes"@, seq![]),
        ("op_duration_seconds"@, "Application-level MongoDB operation duration"@, seq!["op"@]),
    ]
}

/// Name, help text and label names of each MongoDB metric, in the
/// order of [`mongo_table`].
pub fn mongo_metrics() -> (defs: Vec<MetricDef>)
    ensures
        defs_model(defs@) == mongo_table(),
{
    let defs = vec![
        MetricDef { name: "connections_current", help: "Current MongoDB connections", labels: vec![] },
        MetricDef { name: "connections_available", help: "Available MongoDB connections", labels: vec![] },
        MetricDef { name: "connections_total", help: "Total MongoDB connections created", labels: vec![] },
        MetricDef { name: "opcounters_total", help: "MongoDB operation counters (snapshot)", labels: vec!["op"] },
        MetricDef { name: "network_bytes_in", help: "Network bytes received", labels: vec![] },
        MetricDef { name: "network_bytes_out", help: "Network bytes sent", labels: vec![] },
        MetricDef { name: "network_requests", help: "Network requests received", labels: vec![] },
        MetricDef { name: "resident_memory_bytes", help: "Resident memory usage in bytes", labels: vec![] },
        MetricDef { name: "virtual_memory_bytes", help: "Virtual memory usage in bytes", labels: vec![] },
        MetricDef { name: "wt_cache_bytes_in_use", help: "WiredTiger cache bytes currently in use", labels: vec![] },
        MetricDef { name: "wt_cache_bytes_max", help: "WiredTiger cache maximum bytes", labels: vec![] },
        MetricDef { name: "wt_cache_dirty_bytes", help: "WiredTiger cache dirty bytes", labels: vec![] },
        MetricDef { name: "op_duration_seconds", help: "Application-level MongoDB operation duration", labels: vec!["op"] },
    ];
    assert(defs_model(defs@) =~~= mongo_table());
    defs
}

/// The subsystem of the HTTP metrics.
pub const HTTP_SUBSYSTEM: &'static str = "http";

/// The HTTP metrics, in order.
pub open spec fn http_table() -> Seq<(Seq<char>, Seq<char>, Seq<Seq<char>>)> {
    seq![
        ("requests_total"@, "Total HTTP requests"@, seq!["method"@, "path"@, "status"@]),
        ("request_duration_seconds"@, "HTTP request latency in seconds"@, seq!["method"@, "path"@, "status"@]),
        ("requests_in_flight"@, "Currently in-flight HTTP requests"@, seq![]),
        ("response_size_bytes"@, "HTTP response body size in bytes"@, seq!["method"@, "path"@]),
    ]
}

/// Name, help text and label names of each HTTP metric, in the
/// order of [`http_table`].
pub fn http_metrics() -> (defs: Vec<MetricDef>)
    ensures
        defs_model(defs@) == http_table(),
{
    let defs = vec![
        MetricDef { name: "requests_total", help: "Total HTTP requests", labels: vec!["method", "path", "status"] },
        MetricDef { name: "request_duration_seconds", help: "HTTP request latency in seconds", labels: vec!["method", "path", "status"] },
        MetricDef { name: "requests_in_flight", help: "Currently in-flight HTTP requests", labels: vec![] },
        MetricDef { name: "response_size_bytes", help: "HTTP response body size in bytes", labels: vec!["method", "path"] },
    ];
    assert(defs_model(defs@) =~~= http_table());
    defs
}

/// Two names told apart by their length or by one of a few sampled
/// characters.
pub open spec fn told_apart(a: Seq<char>, b: Seq<char>) -> bool {
    ||| a.len() != b.len()
    ||| a[0] != b[0]
    ||| a[3] != b[3]
    ||| a[6] != b[6]
    ||| a[8] != b[8]
    ||| a[12] != b[12]
    ||| a.last() != b.last()
}

/// Names that are pairwise told apart are distinct.
proof fn lemma_distinct_if_told_apart(names: Seq<Seq<char>>)
    requires
        forall|i: int, j: int|
            0 <= i < names.len() && 0 <= j < names.len() && i != j ==> told_apart(
                #[trigger] names[i],
                #[trigger] names[j],
            ),
    ensures
        distinct(names),
{
}

/// The PostgreSQL metrics sit where the collector fills them: the pool
/// gauges (active, idle, max) first, then the per-database statistics of
/// `pg_stat_database` (backends, commits, rollbacks, buffer hits, blocks
/// read, size), the per-table statistics of `pg_stat_user_tables`
/// (sequential scans, index scans, live and dead rows), the lock counts by
/// mode, and the two application histograms; each name goes with the help
/// text of the statistic it carries.
pub proof fn lemma_postgres_positions()
    ensures
        postgres_table().len() == 16,
        postgres_table()[0] == ("pool_active"@, "Active pool connections"@, Seq::<Seq<char>>::empty()),
        postgres_table()[1] == ("pool_idle"@, "Idle pool connections"@, Seq::<Seq<char>>::empty()),
        postgres_table()[2] == ("pool_max"@, "Maximum pool size"@, Seq::<Seq<char>>::empty()),
        postgres_table()[3] == ("db_numbackends"@, "Active backends per database"@, seq!["database"@]),
        postgres_table()[4] == ("db_xact_commit"@, "Committed transactions (snapshot)"@, seq!["database"@]),
        postgres_table()[5] == ("db_xact_rollback"@, "Rolled-back transactions (snapshot)"@, seq!["database"@]),
        postgres_table()[6] == ("db_blks_hit"@, "Buffer hits (snapshot)"@, seq!["database"@]),
        postgres_table()[7] == ("db_blks_read"@, "Disk blocks read (snapshot)"@, seq!["database"@]),
        postgres_table()[8] == ("db_size_bytes"@, "Database size in bytes"@, seq!["database"@]),
        postgres_table()[9] == ("table_seq_scan"@, "Sequential scans (snapshot)"@, seq!["schema"@, "table"@]),
        postgres_table()[10] == ("table_idx_scan"@, "Index scans (snapshot)"@, seq!["schema"@, "table"@]),
        postgres_table()[11] == ("table_live_tup"@, "Estimated live rows"@, seq!["schema"@, "table"@]),
        postgres_table()[12] == ("table_dead_tup"@, "Estimated dead rows"@, seq!["schema"@, "table"@]),
        postgres_table()[13] == ("lock_count"@, "Active locks by mode"@, seq!["mode"@]),
        postgres_table()[14] == ("query_duration_seconds"@, "Application query duration"@, seq!["query"@]),
        postgres_table()[15] == ("rows_returned"@, "Rows returned per application query"@, seq!["query"@]),
{
}

/// The Redis metrics sit where the collector fills them from `INFO`:
/// pool connections, clients, blocked clients, used memory, RSS,
/// fragmentation ratio, hits, misses, evictions, commands processed, the
/// per-database keys and expiring keys, replication offset, connected
/// replicas, and the command histogram; each name goes with the help text
/// of the figure it carries.
pub proof fn lemma_redis_positions()
    ensures
        redis_table().len() == 15,
        redis_table()[0] == ("pool_connections"@, "Number of connected pool clients"@, Seq::<Seq<char>>::empty()),
        redis_table()[1] == ("connected_clients"@, "Number of connected Redis clients"@, Seq::<Seq<char>>::empty()),
        redis_table()[2] == ("blocked_clients"@, "Number of blocked Redis clients"@, Seq::<Seq<char>>::empty()),
        redis_table()[3] == ("used_memory_bytes"@, "Redis used memory in bytes"@, Seq::<Seq<char>>::empty()),
        redis_table()[4] == ("used_memory_rss"@, "Redis RSS memory in bytes"@, Seq::<Seq<char>>::empty()),
        redis_table()[5] == ("mem_fragmentation_ratio"@, "Redis memory fragmentation ratio"@, Seq::<Seq<char>>::empty()),
        redis_table()[6] == ("keyspace_hits"@, "Redis keyspace hits (snapshot)"@, Seq::<Seq<char>>::empty()),
        redis_table()[7] == ("keyspace_misses"@, "Redis keyspace misses (snapshot)"@, Seq::<Seq<char>>::empty()),
        redis_table()[8] == ("evicted_keys"@, "Redis evicted keys (snapshot)"@, Seq::<Seq<char>>::empty()),
        redis_table()[9] == ("total_commands_processed"@, "Total Redis commands processed (snapshot)"@, Seq::<Seq<char>>::empty()),
        redis_table()[10] == ("db_keys"@, "Number of keys per database"@, seq!["db"@]),
        redis_table()[11] == ("db_expires"@, "Number of expiring keys per database"@, seq!["db"@]),
        redis_table()[12] == ("replication_offset"@, "Redis master replication offset"@, Seq::<Seq<char>>::empty()),
        redis_table()[13] == ("connected_slaves"@, "Number of connected Redis replicas"@, Seq::<Seq<char>>::empty()),
        redis_table()[14] == ("command_duration_seconds"@, "Application-level Redis command duration"@, seq!["cmd"@]),
{
}

/// The MongoDB metrics sit where the collector fills them from
/// `serverStatus`: connections (current, available, created), operation
/// counters, network (bytes in, bytes out, requests), memory (resident,
/// virtual), the WiredTiger cache (in use, maximum, dirty), and the
/// operation histogram; each name goes with the help text of the figure
/// it carries.
pub proof fn lemma_mongo_positions()
    ensures
        mongo_table().len() == 13,
        mongo_table()[0] == ("connections_current"@, "Current MongoDB connections"@, Seq::<Seq<char>>::empty()),
        mongo_table()[1] == ("connections_available"@, "Available MongoDB connections"@, Seq::<Seq<char>>::empty()),
        mongo_table()[2] == ("connections_total"@, "Total MongoDB connections created"@, Seq::<Seq<char>>::empty()),
        mongo_table()[3] == ("opcounters_total"@, "MongoDB operation counters (snapshot)"@, seq!["op"@]),
        mongo_table()[4] == ("network_bytes_in"@, "Network bytes received"@, Seq::<Seq<char>>::empty()),
        mongo_table()[5] == ("network_bytes_out"@, "Network bytes sent"@, Seq::<Seq<char>>::empty()),
        mongo_table()[6] == ("network_requests"@, "Network requests received"@, Seq::<Seq<char>>::empty()),
        mongo_table()[7] == ("resident_memory_bytes"@, "Resident memory usage in bytes"@, Seq::<Seq<char>>::empty()),
        mongo_table()[8] == ("virtual_memory_bytes"@, "Virtual memory usage in bytes"@, Seq::<Seq<char>>::empty()),
        mongo_table()[9] == ("wt_cache_bytes_in_use"@, "WiredTiger cache bytes currently in use"@, Seq::<Seq<char>>::empty()),
        mongo_table()[10] == ("wt_cache_bytes_max"@, "WiredTiger cache maximum bytes"@, Seq::<Seq<char>>::empty()),
        mongo_table()[11] == ("wt_cache_dirty_bytes"@, "WiredTiger cache dirty bytes"@, Seq::<Seq<char>>::empty()),
        mongo_table()[12] == ("op_duration_seconds"@, "Application-level MongoDB operation duration"@, seq!["op"@]),
{
}

/// The HTTP metrics sit where the middleware fills them: request count,
/// request duration, requests in flight, response size; each name goes
/// with the help text of what it measures.
pub proof fn lemma_http_positions()
    ensures
        http_table().len() == 4,
        http_table()[0] == ("requests_total"@, "Total HTTP requests"@, seq!["method"@, "path"@, "status"@]),
        http_table()[1] == ("request_duration_seconds"@, "HTTP request latency in seconds"@, seq!["method"@, "path"@, "status"@]),
        http_table()[2] == ("requests_in_flight"@, "Currently in-flight HTTP requests"@, Seq::<Seq<char>>::empty()),
        http_table()[3] == ("response_size_bytes"@, "HTTP response body size in bytes"@, seq!["method"@, "path"@]),
{
}

/// Within each collector, and among the HTTP metrics, no two metrics share
/// a name.
pub proof fn lemma_catalog_names_distinct()
    ensures
        distinct(names_of(postgres_table())),
        distinct(names_of(redis_table())),
        distinct(names_of(mongo_table())),
        distinct(names_of(http_table())),
{
    reveal_strlit("pool_active");
    reveal_strlit("pool_idle");
    reveal_strlit("pool_max");
    reveal_strlit("db_numbackends");
    reveal_strlit("db_xact_commit");
    reveal_strlit("db_xact_rollback");
    reveal_strlit("db_blks_hit");
    reveal_strlit("db_blks_read");
    reveal_strlit("db_size_bytes");
    reveal_strlit("table_seq_scan");
    reveal_strlit("table_idx_scan");
    reveal_strlit("table_live_tup");
    reveal_strlit("table_dead_tup");
    reveal_strlit("lock_count");
    reveal_strlit("query_duration_seconds");
    reveal_strlit("rows_returned");
    reveal_strlit("pool_connections");
    reveal_strlit("connected_clients");
    reveal_strlit("blocked_clients");
    reveal_strlit("used_memory_bytes");
    reveal_strlit("used_memory_rss");
    reveal_strlit("mem_fragmentation_ratio");
    reveal_strlit("keyspace_hits");
    reveal_strlit("keyspace_misses");
    reveal_strlit("evicted_keys");
    reveal_strlit("total_commands_processed");
    reveal_strlit("db_keys");
    reveal_strlit("db_expires");
    reveal_strlit("replication_offset");
    reveal_strlit("connected_slaves");
    reveal_strlit("command_duration_seconds");
    reveal_strlit("connections_current");
    reveal_strlit("connections_available");
    reveal_strlit("connections_total");
    reveal_strlit("opcounters_total");
    reveal_strlit("network_bytes_in");
    reveal_strlit("network_bytes_out");
    reveal_strlit("network_requests");
    reveal_strlit("resident_memory_bytes");
    reveal_strlit("virtual_memory_bytes");
    reveal_strlit("wt_cache_bytes_in_use");
    reveal_strlit("wt_cache_bytes_max");
    reveal_strlit("wt_cache_dirty_bytes");
    reveal_strlit("op_duration_seconds");
    reveal_strlit("requests_total");
    reveal_strlit("request_duration_seconds");
    reveal_strlit("requests_in_flight");
    reveal_strlit("response_size_bytes");
    lemma_distinct_if_told_apart(names_of(postgres_table()));
    lemma_distinct_if_told_apart(names_of(redis_table()));
    lemma_distinct_if_told_apart(names_of(mongo_table()));
    lemma_distinct_if_told_apart(names_of(http_table()));
}

/// What comes before the subsystem in a full name.
pub open spec fn name_prefix(namespace: Seq<char>) -> Seq<char> {
    if namespace.len() == 0 {
        Seq::empty()
    } else {
        namespace + "_"@
    }
}

/// A full name is the prefix, the subsystem, `_` and the name.
proof fn lemma_full_name_parts(namespace: Seq<char>, subsystem: Seq<char>, name: Seq<char>)
    ensures
        full_name(namespace, subsystem, name) == name_prefix(namespace) + subsystem + "_"@ + name,
{
    if namespace.len() == 0 {
        assert(name_prefix(namespace) + subsystem =~= subsystem);
    } else {
        assert(full_name(namespace, subsystem, name) =~= name_prefix(namespace) + subsystem + "_"@
            + name);
    }
}

/// Two metrics of subsystems with different first letters never share a
/// full name; two of the same subsystem share one only if they share a name.
proof fn lemma_full_name_eq(
    namespace: Seq<char>,
    s1: Seq<char>,
    n1: Seq<char>,
    s2: Seq<char>,
    n2: Seq<char>,
)
    requires
        full_name(namespace, s1, n1) == full_name(namespace, s2, n2),
        s1.len() > 0,
        s2.len() > 0,
    ensures
        s1[0] == s2[0],
        s1 == s2 ==> n1 == n2,
{
    reveal_strlit("_");
    lemma_full_name_parts(namespace, s1, n1);
    lemma_full_name_parts(namespace, s2, n2);
    let p = name_prefix(namespace);
    let f1 = p + s1 + "_"@ + n1;
    let f2 = p + s2 + "_"@ + n2;
    assert(f1[p.len() as int] == s1[0]);
    assert(f2[p.len() as int] == s2[0]);
    if s1 == s2 {
        assert(f1.skip(p.len() + s1.len() + 1int) =~= n1);
        assert(f2.skip(p.len() + s2.len() + 1int) =~= n2);
    }
}

/// Distinct names stay distinct under a common namespace and subsystem.
proof fn lemma_full_names_distinct(namespace: Seq<char>, subsystem: Seq<char>, names: Seq<Seq<char>>)
    requires
        subsystem.len() > 0,
        distinct(names),
    ensures
        distinct(full_names(namespace, subsystem, names)),
{
    let f = full_names(namespace, subsystem, names);
    assert forall|i: int, j: int| 0 <= i < f.len() && 0 <= j < f.len() && i != j implies f[i]
        != f[j] by {
        if f[i] == f[j] {
            lemma_full_name_eq(namespace, subsystem, names[i], subsystem, names[j]);
        }
    }
}

/// Metrics of subsystems with different first letters never share a full
/// name.
proof fn lemma_full_names_apart(
    namespace: Seq<char>,
    s1: Seq<char>,
    names1: Seq<Seq<char>>,
    s2: Seq<char>,
    names2: Seq<Seq<char>>,
)
    requires
        s1.len() > 0,
        s2.len() > 0,
        s1[0] != s2[0],
    ensures
        forall|i: int, j: int|
            0 <= i < names1.len() && 0 <= j < names2.len() ==> full_names(namespace, s1, names1)[i]
                != full_names(namespace, s2, names2)[j],
{
    assert forall|i: int, j: int| 0 <= i < names1.len() && 0 <= j < names2.len() implies full_names(
        namespace,
        s1,
        names1,
    )[i] != full_names(namespace, s2, names2)[j] by {
        if full_names(namespace, s1, names1)[i] == full_names(namespace, s2, names2)[j] {
            lemma_full_name_eq(namespace, s1, names1[i], s2, names2[j]);
        }
    }
}

/// Joining two lists without a common entry keeps them distinct.
proof fn lemma_append_distinct(a: Seq<Seq<char>>, b: Seq<Seq<char>>)
    requires
        distinct(a),
        distinct(b),
        forall|i: int, j: int| 0 <= i < a.len() && 0 <= j < b.len() ==> a[i] != b[j],
    ensures
        distinct(a + b),
{
    let c = a + b;
    assert forall|i: int, j: int| 0 <= i < c.len() && 0 <= j < c.len() && i != j implies c[i]
        != c[j] by {
        if i < a.len() && j >= a.len() {
            assert(c[j] == b[j - a.len()]);
        } else if i >= a.len() && j < a.len() {
            assert(c[i] == b[i - a.len()]);
        } else if i >= a.len() && j >= a.len() {
            assert(c[i] == b[i - a.len()]);
            assert(c[j] == b[j - a.len()]);
        }
    }
}

/// The full names of every metric the library registers: the HTTP
/// metrics and those of the three collectors, in that order.
pub open spec fn all_full_names(namespace: Seq<char>) -> Seq<Seq<char>> {
    full_names(namespace, HTTP_SUBSYSTEM@, names_of(http_table())) + full_names(
        namespace,
        POSTGRES_SUBSYSTEM@,
        names_of(postgres_table()),
    ) + full_names(namespace, REDIS_SUBSYSTEM@, names_of(redis_table())) + full_names(
        namespace,
        MONGO_SUBSYSTEM@,
        names_of(mongo_table()),
    )
}

/// Under any one namespace, no two metrics of the library share a full
/// name: when the HTTP metrics (named with the builder's namespace) and the
/// three collectors (named with their `CollectorConfig`'s namespace) are
/// given the same namespace, they can all be registered in one registry
/// without a clash. Different namespaces are not covered.
pub proof fn lemma_all_full_names_distinct(namespace: Seq<char>)
    ensures
        distinct(all_full_names(namespace)),
{
    reveal_strlit("http");
    reveal_strlit("postgres");
    reveal_strlit("redis");
    reveal_strlit("mongo");
    let h = full_names(namespace, HTTP_SUBSYSTEM@, names_of(http_table()));
    let p = full_names(namespace, POSTGRES_SUBSYSTEM@, names_of(postgres_table()));
    let r = full_names(namespace, REDIS_SUBSYSTEM@, names_of(redis_table()));
    let m = full_names(namespace, MONGO_SUBSYSTEM@, names_of(mongo_table()));
    lemma_catalog_names_distinct();
    lemma_full_names_distinct(namespace, HTTP_SUBSYSTEM@, names_of(http_table()));
    lemma_full_names_distinct(namespace, POSTGRES_SUBSYSTEM@, names_of(postgres_table()));
    lemma_full_names_distinct(namespace, REDIS_SUBSYSTEM@, names_of(redis_table()));
    lemma_full_names_distinct(namespace, MONGO_SUBSYSTEM@, names_of(mongo_table()));
    lemma_full_names_apart(namespace, HTTP_SUBSYSTEM@, names_of(http_table()), POSTGRES_SUBSYSTEM@, names_of(postgres_table()));
    lemma_full_names_apart(namespace, HTTP_SUBSYSTEM@, names_of(http_table()), REDIS_SUBSYSTEM@, names_of(redis_table()));
    lemma_full_names_apart(namespace, HTTP_SUBSYSTEM@, names_of(http_table()), MONGO_SUBSYSTEM@, names_of(mongo_table()));
    lemma_full_names_apart(namespace, POSTGRES_SUBSYSTEM@, names_of(postgres_table()), REDIS_SUBSYSTEM@, names_of(redis_table()));
    lemma_full_names_apart(namespace, POSTGRES_SUBSYSTEM@, names_of(postgres_table()), MONGO_SUBSYSTEM@, names_of(mongo_table()));
    lemma_full_names_apart(namespace, REDIS_SUBSYSTEM@, names_of(redis_table()), MONGO_SUBSYSTEM@, names_of(mongo_table()));
    lemma_append_distinct(h, p);
    assert forall|i: int, j: int| 0 <= i < (h + p).len() && 0 <= j < r.len() implies (h + p)[i]
        != r[j] by {
        if i >= h.len() {
            assert((h + p)[i] == p[i - h.len()]);
        }
    }
    lemma_append_distinct(h + p, r);
    assert forall|i: int, j: int| 0 <= i < (h + p + r).len() && 0 <= j < m.len() implies (h + p
        + r)[i] != m[j] by {
        if i >= (h + p).len() {
            assert((h + p + r)[i] == r[i - (h + p).len()]);
        } else if i >= h.len() {
            assert((h + p + r)[i] == (h + p)[i]);
            assert((h + p)[i] == p[i - h.len()]);
        } else {
            assert((h + p + r)[i] == (h + p)[i]);
        }
    }
    lemma_append_distinct(h + p + r, m);
}

} // verus!
