//! The PostgreSQL collector's logic: the statistics queries, the rows they
//! return, the gauge values read from those rows, and the pool figures.

use vstd::prelude::*;

use crate::text::{chars_of, str_equals, string_from_chars};

verus! {

/// Per-database statistics.
pub const SQL_DB_STATS: &'static str = "
SELECT datname, numbackends, xact_commit, xact_rollback,
       blks_hit, blks_read, pg_database_size(datname) AS size_bytes
FROM pg_stat_database WHERE datname IS NOT NULL";

/// Per-table statistics.
pub const SQL_TABLE_STATS: &'static str = "
SELECT schemaname, relname, seq_scan, idx_scan, n_live_tup, n_dead_tup
FROM pg_stat_user_tables";

/// Granted locks counted by mode.
pub const SQL_LOCKS: &'static str = "
SELECT mode, COUNT(*) AS cnt FROM pg_locks WHERE granted = true GROUP BY mode";

/// Connection pool figures.
pub struct PoolStatus {
    pub max_size: u32,
    pub available: u32,
    pub in_use: u32,
}

impl PoolStatus {
    /// Figures of a deadpool pool from its `Status` (`max_size`, `size`,
    /// `available`): in use is `size - available`, floored at 0, and each
    /// figure is cut to `u32` as `as u32` does.
    pub fn from_deadpool(max_size: usize, size: usize, available: usize) -> (s: PoolStatus)
        ensures
            s.max_size == max_size as u32,
            s.available == available as u32,
            s.in_use == (if size >= available {
                (size - available) as usize
            } else {
                0usize
            }) as u32,
    {
        let in_use: u32 = size.saturating_sub(available) as u32;
        PoolStatus { max_size: max_size as u32, available: available as u32, in_use }
    }

    /// Figures of an r2d2 pool from its maximum size and its `State`
    /// (`connections`, `idle_connections`): in use is
    /// `connections - idle_connections`, floored at 0.
    pub fn from_r2d2(max_size: u32, connections: u32, idle_connections: u32) -> (s: PoolStatus)
        ensures
            s.max_size == max_size,
            s.available == idle_connections,
            s.in_use == if connections >= idle_connections {
                connections - idle_connections
            } else {
                0
            },
    {
        PoolStatus {
            max_size,
            available: idle_connections,
            in_use: connections.saturating_sub(idle_connections),
        }
    }

    /// Figures of a connection that does not report its pool: all 0, which
    /// callers read as "unknown".
    pub fn unknown() -> (s: PoolStatus)
        ensures
            s.max_size == 0 && s.available == 0 && s.in_use == 0,
    {
        PoolStatus { max_size: 0, available: 0, in_use: 0 }
    }

    /// The values of the `pool_active`, `pool_idle` and `pool_max` gauges.
    pub fn gauge_values(&self) -> (r: (i64, i64, i64))
        ensures
            r == (self.in_use as i64, self.available as i64, self.max_size as i64),
    {
        (self.in_use as i64, self.available as i64, self.max_size as i64)
    }
}

/// The text that wraps a statistics query so that each row comes back as
/// one JSON text in a column named `row_json`.
pub open spec fn row_json_query_spec(sql: Seq<char>) -> Seq<char> {
    "SELECT row_to_json(t)::text AS row_json FROM ("@ + sql + ") t"@
}


/// The statistics query stands unchanged inside the wrapping query, between
/// the 46-character `SELECT row_to_json(t)::text AS row_json FROM (` and
/// `) t`.
pub proof fn lemma_row_json_query_wraps(sql: Seq<char>)
    ensures
        row_json_query_spec(sql).len() == sql.len() + 49,
        row_json_query_spec(sql).take(46) == "SELECT row_to_json(t)::text AS row_json FROM ("@,
        row_json_query_spec(sql).subrange(46, 46 + sql.len() as int) == sql,
        row_json_query_spec(sql).skip(46 + sql.len() as int) == ") t"@,
{
    reveal_strlit("SELECT row_to_json(t)::text AS row_json FROM (");
    reveal_strlit(") t");
    let q = row_json_query_spec(sql);
    assert(q.take(46) =~= "SELECT row_to_json(t)::text AS row_json FROM ("@);
    assert(q.subrange(46, 46 + sql.len() as int) =~= sql);
    assert(q.skip(46 + sql.len() as int) =~= ") t"@);
}

/// `format!("SELECT row_to_json(t)::text AS row_json FROM ({sql}) t")`.
pub fn row_json_query(sql: &str) -> (q: String)
    ensures
        q@ == row_json_query_spec(sql@),
{
    let mut v = chars_of("SELECT row_to_json(t)::text AS row_json FROM (");
    let mut body = chars_of(sql);
    let mut tail = chars_of(") t");
    v.append(&mut body);
    v.append(&mut tail);
    string_from_chars(v.as_slice())
}

/// A JSON value in a result row, as the statistics read it.
pub enum ColumnValue {
    /// A non-negative JSON integer.
    PosInt(u64),
    /// A negative JSON integer.
    NegInt(i64),
    /// A JSON number with a fraction or exponent, already cut to `i64`
    /// as `as i64` does.
    Float(i64),
    /// A JSON string.
    Text(String),
    /// `null`, a boolean, an array or an object.
    Other,
}

/// One result row: its columns and their values.
pub struct JsonRow {
    pub columns: Vec<(String, ColumnValue)>,
}

/// The columns of a row, names taken by their characters.
pub open spec fn columns_model(row: JsonRow) -> Seq<(Seq<char>, ColumnValue)> {
    row.columns@.map_values(|c: (String, ColumnValue)| (c.0@, c.1))
}

/// The value of the first column named `key`.
pub open spec fn lookup(cols: Seq<(Seq<char>, ColumnValue)>, key: Seq<char>) -> Option<ColumnValue>
    decreases cols.len(),
{
    if cols.len() == 0 {
        None
    } else if cols[0].0 == key {
        Some(cols[0].1)
    } else {
        lookup(cols.drop_first(), key)
    }
}

/// A value read as an integer: `as_i64`, else `as_f64` cast with `as i64`
/// (which saturates an integer above `i64::MAX`), else 0.
pub open spec fn integer_of(v: Option<ColumnValue>) -> i64 {
    match v {
        Some(ColumnValue::PosInt(u)) => if u <= i64::MAX {
            u as i64
        } else {
            i64::MAX
        },
        Some(ColumnValue::NegInt(n)) => n,
        Some(ColumnValue::Float(t)) => t,
        _ => 0,
    }
}

/// A value read as text: the string itself, else empty.
pub open spec fn text_of(v: Option<ColumnValue>) -> Seq<char> {
    match v {
        Some(ColumnValue::Text(s)) => s@,
        _ => Seq::empty(),
    }
}

/// The integer in column `key` of `row`.
pub open spec fn get_i64_spec(row: JsonRow, key: Seq<char>) -> i64 {
    integer_of(lookup(columns_model(row), key))
}

/// An integer column is read as its value: a non-negative integer up to
/// `i64::MAX` and a negative integer are returned as they are, a larger
/// integer as `i64::MAX` (what `as i64` gives for it), a number with a
/// fraction as its cut value; text, other values and a missing column as 0.
pub proof fn lemma_integer_column(row: JsonRow, key: Seq<char>)
    ensures
        lookup(columns_model(row), key) matches Some(ColumnValue::PosInt(u)) ==> (u
            <= 9223372036854775807 ==> get_i64_spec(row, key) == u) && (u > 9223372036854775807
            ==> get_i64_spec(row, key) == 9223372036854775807),
        lookup(columns_model(row), key) matches Some(ColumnValue::NegInt(n)) ==> get_i64_spec(
            row,
            key,
        ) == n,
        lookup(columns_model(row), key) matches Some(ColumnValue::Float(t)) ==> get_i64_spec(
            row,
            key,
        ) == t,
        lookup(columns_model(row), key) matches Some(ColumnValue::Text(_)) ==> get_i64_spec(
            row,
            key,
        ) == 0,
        lookup(columns_model(row), key) matches Some(ColumnValue::Other) ==> get_i64_spec(
            row,
            key,
        ) == 0,
        lookup(columns_model(row), key) is None ==> get_i64_spec(row, key) == 0,
{
}

/// A text column is read as its text; any other value, or a missing
/// column, as the empty text.
pub proof fn lemma_text_column(row: JsonRow, key: Seq<char>)
    ensures
        lookup(columns_model(row), key) matches Some(ColumnValue::Text(t)) ==> get_str_spec(
            row,
            key,
        ) == t@,
        !(lookup(columns_model(row), key) matches Some(ColumnValue::Text(_))) ==> get_str_spec(
            row,
            key,
        ) == Seq::<char>::empty(),
{
}

/// The text in column `key` of `row`.
pub open spec fn get_str_spec(row: JsonRow, key: Seq<char>) -> Seq<char> {
    text_of(lookup(columns_model(row), key))
}

/// Index of the first column of `row` named `key`, if any.
fn find_column(row: &JsonRow, key: &str) -> (r: Option<usize>)
    ensures
        match r {
            Some(i) => i < row.columns@.len() && lookup(columns_model(*row), key@) == Some(
                row.columns@[i as int].1,
            ),
            None => lookup(columns_model(*row), key@) is None,
        },
{
    let n: usize = row.columns.len();
    let ghost m = columns_model(*row);
    let mut i: usize = 0;
    assert(m.skip(0) =~= m);
    while i < n
        invariant
            n == row.columns@.len(),
            m == columns_model(*row),
            i <= n,
            lookup(m, key@) == lookup(m.skip(i as int), key@),
        decreases n - i,
    {
        assert(m.skip(i as int)[0] == m[i as int]);
        assert(m.skip(i as int).drop_first() =~= m.skip(i + 1));
        if str_equals(row.columns[i].0.as_str(), key) {
            return Some(i);
        }
        i = i + 1;
    }
    assert(m.skip(n as int) =~= Seq::<(Seq<char>, ColumnValue)>::empty());
    None
}

/// The integer in column `key` of `row`, 0 where there is none.
pub fn get_i64(row: &JsonRow, key: &str) -> (r: i64)
    ensures
        r == get_i64_spec(*row, key@),
        lookup(columns_model(*row), key@) matches Some(ColumnValue::PosInt(u)) ==> (u
            <= 9223372036854775807 ==> r == u) && (u > 9223372036854775807 ==> r
            == 9223372036854775807),
        lookup(columns_model(*row), key@) matches Some(ColumnValue::NegInt(n)) ==> r == n,
        lookup(columns_model(*row), key@) is None ==> r == 0,
{
    proof {
        lemma_integer_column(*row, key@);
    }
    match find_column(row, key) {
        Some(i) => match &row.columns[i].1 {
            ColumnValue::PosInt(u) => if *u <= 9223372036854775807 {
                *u as i64
            } else {
                9223372036854775807
            },
            ColumnValue::NegInt(n) => *n,
            ColumnValue::Float(t) => *t,
            _ => 0,
        },
        None => 0,
    }
}

/// The text in column `key` of `row`, empty where there is none.
pub fn get_str<'a>(row: &'a JsonRow, key: &str) -> (r: &'a str)
    ensures
        r@ == get_str_spec(*row, key@),
{
    match find_column(row, key) {
        Some(i) => match &row.columns[i].1 {
            ColumnValue::Text(s) => s.as_str(),
            _ => {
                proof {
                    reveal_strlit("");
                }
                ""
            },
        },
        None => {
            proof {
                reveal_strlit("");
            }
            ""
        },
    }
}

/// The rows that were JSON objects, in order.
pub open spec fn objects_of(values: Seq<Option<JsonRow>>) -> Seq<JsonRow>
    decreases values.len(),
{
    if values.len() == 0 {
        Seq::empty()
    } else {
        let rest = objects_of(values.drop_last());
        match values.last() {
            Some(row) => rest.push(row),
            None => rest,
        }
    }
}

/// Keeps the decoded rows that were JSON objects (`Some`), in order,

/// Keeping the objects goes piece by piece and keeps their order: a JSON
/// object is kept, anything else dropped, and the objects of two lists
/// one after the other are those of the first followed by those of the
/// second.
pub proof fn lemma_objects_of(a: Seq<Option<JsonRow>>, b: Seq<Option<JsonRow>>, row: JsonRow)
    ensures
        objects_of(seq![Some(row)]) == seq![row],
        objects_of(seq![None]) == Seq::<JsonRow>::empty(),
        objects_of(a + b) == objects_of(a) + objects_of(b),
    decreases b.len(),
{
    let one = seq![Some(row)];
    let none = seq![None::<JsonRow>];
    assert(one.drop_last() =~= Seq::<Option<JsonRow>>::empty());
    assert(none.drop_last() =~= Seq::<Option<JsonRow>>::empty());
    assert(one.last() == Some(row));
    assert(none.last() is None);
    assert(objects_of(Seq::<Option<JsonRow>>::empty()) == Seq::<JsonRow>::empty());
    assert(Seq::<JsonRow>::empty().push(row) =~= seq![row]);
    assert(objects_of(one) == objects_of(one.drop_last()).push(row));
    assert(objects_of(none) == objects_of(none.drop_last()));
    if b.len() == 0 {
        assert(a + b =~= a);
        assert(objects_of(a) + Seq::<JsonRow>::empty() =~= objects_of(a));
    } else {
        lemma_objects_of(a, b.drop_last(), row);
        assert((a + b).drop_last() =~= a + b.drop_last());
        assert((a + b).last() == b.last());
        match b.last() {
            Some(r) => {
                assert(objects_of(a) + objects_of(b.drop_last()).push(r) =~= (objects_of(a)
                    + objects_of(b.drop_last())).push(r));
            },
            None => {},
        }
    }
}

/// dropping any other JSON value.
pub fn keep_objects(values: Vec<Option<JsonRow>>) -> (rows: Vec<JsonRow>)
    ensures
        rows@ == objects_of(values@),
{
    let ghost all = values@;
    let mut rows: Vec<JsonRow> = Vec::new();
    for v in it: values
        invariant
            it.seq() == all,
            rows@ == objects_of(all.take(it.index() as int)),
    {
        let ghost k = it.index();
        assert(all.take(k + 1).drop_last() =~= all.take(k as int));
        match v {
            Some(row) => rows.push(row),
            None => {},
        }
    }
    assert(all.take(all.len() as int) =~= all);
    rows
}

/// One row of `pg_stat_database`, as the gauges see it.
pub struct DatabaseStats {
    pub database: String,
    pub numbackends: i64,
    pub xact_commit: i64,
    pub xact_rollback: i64,
    pub blks_hit: i64,
    pub blks_read: i64,
    pub size_bytes: i64,
}

/// One row of `pg_stat_user_tables`, as the gauges see it.
pub struct TableStats {
    pub schema: String,
    pub table: String,
    pub seq_scan: i64,
    pub idx_scan: i64,
    pub live_tup: i64,
    pub dead_tup: i64,
}

/// One row of the lock query, as the gauge sees it.
pub struct LockCount {
    pub mode: String,
    pub count: i64,
}

/// The statistics that `row` gives for its database.
pub open spec fn database_stats_of(row: JsonRow, s: DatabaseStats) -> bool {
    &&& s.database@ == get_str_spec(row, "datname"@)
    &&& s.numbackends == get_i64_spec(row, "numbackends"@)
    &&& s.xact_commit == get_i64_spec(row, "xact_commit"@)
    &&& s.xact_rollback == get_i64_spec(row, "xact_rollback"@)
    &&& s.blks_hit == get_i64_spec(row, "blks_hit"@)
    &&& s.blks_read == get_i64_spec(row, "blks_read"@)
    &&& s.size_bytes == get_i64_spec(row, "size_bytes"@)
}

/// The statistics that `row` gives for its table.
pub open spec fn table_stats_of(row: JsonRow, s: TableStats) -> bool {
    &&& s.schema@ == get_str_spec(row, "schemaname"@)
    &&& s.table@ == get_str_spec(row, "relname"@)
    &&& s.seq_scan == get_i64_spec(row, "seq_scan"@)
    &&& s.idx_scan == get_i64_spec(row, "idx_scan"@)
    &&& s.live_tup == get_i64_spec(row, "n_live_tup"@)
    &&& s.dead_tup == get_i64_spec(row, "n_dead_tup"@)
}

/// The lock count that `row` gives for its mode.
pub open spec fn lock_count_of(row: JsonRow, s: LockCount) -> bool {
    &&& s.mode@ == get_str_spec(row, "mode"@)
    &&& s.count == get_i64_spec(row, "cnt"@)
}

/// The text of column `key`, owned.
fn owned_str(row: &JsonRow, key: &str) -> (s: String)
    ensures
        s@ == get_str_spec(*row, key@),
{
    let t = get_str(row, key);
    t.to_owned()
}

/// The per-database gauge values, one per row of [`SQL_DB_STATS`], in

/// The integer that column `key` of `row` holds, when it holds one that
/// fits in an `i64`.
pub open spec fn integer_column(row: JsonRow, key: Seq<char>) -> Option<int> {
    match lookup(columns_model(row), key) {
        Some(ColumnValue::PosInt(u)) => if u <= 9223372036854775807 {
            Some(u as int)
        } else {
            None
        },
        Some(ColumnValue::NegInt(n)) => Some(n as int),
        _ => None,
    }
}

/// The text that column `key` of `row` holds, when it holds one.
pub open spec fn text_column(row: JsonRow, key: Seq<char>) -> Option<Seq<char>> {
    match lookup(columns_model(row), key) {
        Some(ColumnValue::Text(t)) => Some(t@),
        _ => None,
    }
}

/// Each per-database figure is the number in the column of the same name
/// that the query selects (`size_bytes` for the size), and the database is
/// the text of `datname`.
pub proof fn lemma_database_stats_columns(row: JsonRow, s: DatabaseStats)
    requires
        database_stats_of(row, s),
    ensures
        text_column(row, "datname"@) matches Some(t) ==> s.database@ == t,
        integer_column(row, "numbackends"@) matches Some(v) ==> s.numbackends == v,
        integer_column(row, "xact_commit"@) matches Some(v) ==> s.xact_commit == v,
        integer_column(row, "xact_rollback"@) matches Some(v) ==> s.xact_rollback == v,
        integer_column(row, "blks_hit"@) matches Some(v) ==> s.blks_hit == v,
        integer_column(row, "blks_read"@) matches Some(v) ==> s.blks_read == v,
        integer_column(row, "size_bytes"@) matches Some(v) ==> s.size_bytes == v,
{
    lemma_text_column(row, "datname"@);
    lemma_integer_column(row, "numbackends"@);
    lemma_integer_column(row, "xact_commit"@);
    lemma_integer_column(row, "xact_rollback"@);
    lemma_integer_column(row, "blks_hit"@);
    lemma_integer_column(row, "blks_read"@);
    lemma_integer_column(row, "size_bytes"@);
}

/// Each per-table figure is the number in the column the query selects for
/// it (`seq_scan`, `idx_scan`, `n_live_tup`, `n_dead_tup`), and the schema
/// and table are the texts of `schemaname` and `relname`.
pub proof fn lemma_table_stats_columns(row: JsonRow, s: TableStats)
    requires
        table_stats_of(row, s),
    ensures
        text_column(row, "schemaname"@) matches Some(t) ==> s.schema@ == t,
        text_column(row, "relname"@) matches Some(t) ==> s.table@ == t,
        integer_column(row, "seq_scan"@) matches Some(v) ==> s.seq_scan == v,
        integer_column(row, "idx_scan"@) matches Some(v) ==> s.idx_scan == v,
        integer_column(row, "n_live_tup"@) matches Some(v) ==> s.live_tup == v,
        integer_column(row, "n_dead_tup"@) matches Some(v) ==> s.dead_tup == v,
{
    lemma_text_column(row, "schemaname"@);
    lemma_text_column(row, "relname"@);
    lemma_integer_column(row, "seq_scan"@);
    lemma_integer_column(row, "idx_scan"@);
    lemma_integer_column(row, "n_live_tup"@);
    lemma_integer_column(row, "n_dead_tup"@);
}

/// A lock count is the number in `cnt` for the mode in `mode`.
pub proof fn lemma_lock_count_columns(row: JsonRow, s: LockCount)
    requires
        lock_count_of(row, s),
    ensures
        text_column(row, "mode"@) matches Some(t) ==> s.mode@ == t,
        integer_column(row, "cnt"@) matches Some(v) ==> s.count == v,
{
    lemma_text_column(row, "mode"@);
    lemma_integer_column(row, "cnt"@);
}

/// order.
pub fn database_stats(rows: &Vec<JsonRow>) -> (r: Vec<DatabaseStats>)
    ensures
        r@.len() == rows@.len(),
        forall|i: int| 0 <= i < r@.len() ==> database_stats_of(rows@[i], #[trigger] r@[i]),
{
    let mut r: Vec<DatabaseStats> = Vec::new();
    let n: usize = rows.len();
    for i in 0..n
        invariant
            n == rows@.len(),
            r@.len() == i,
            forall|j: int| 0 <= j < i ==> database_stats_of(rows@[j], #[trigger] r@[j]),
    {
        let row = &rows[i];
        r.push(
            DatabaseStats {
                database: owned_str(row, "datname"),
                numbackends: get_i64(row, "numbackends"),
                xact_commit: get_i64(row, "xact_commit"),
                xact_rollback: get_i64(row, "xact_rollback"),
                blks_hit: get_i64(row, "blks_hit"),
                blks_read: get_i64(row, "blks_read"),
                size_bytes: get_i64(row, "size_bytes"),
            },
        );
    }
    r
}

/// The per-table gauge values, one per row of [`SQL_TABLE_STATS`], in
/// order.
pub fn table_stats(rows: &Vec<JsonRow>) -> (r: Vec<TableStats>)
    ensures
        r@.len() == rows@.len(),
        forall|i: int| 0 <= i < r@.len() ==> table_stats_of(rows@[i], #[trigger] r@[i]),
{
    let mut r: Vec<TableStats> = Vec::new();
    let n: usize = rows.len();
    for i in 0..n
        invariant
            n == rows@.len(),
            r@.len() == i,
            forall|j: int| 0 <= j < i ==> table_stats_of(rows@[j], #[trigger] r@[j]),
    {
        let row = &rows[i];
        r.push(
            TableStats {
                schema: owned_str(row, "schemaname"),
                table: owned_str(row, "relname"),
                seq_scan: get_i64(row, "seq_scan"),
                idx_scan: get_i64(row, "idx_scan"),
                live_tup: get_i64(row, "n_live_tup"),
                dead_tup: get_i64(row, "n_dead_tup"),
            },
        );
    }
    r
}

/// The per-mode lock counts, one per row of [`SQL_LOCKS`], in order.
pub fn lock_counts(rows: &Vec<JsonRow>) -> (r: Vec<LockCount>)
    ensures
        r@.len() == rows@.len(),
        forall|i: int| 0 <= i < r@.len() ==> lock_count_of(rows@[i], #[trigger] r@[i]),
{
    let mut r: Vec<LockCount> = Vec::new();
    let n: usize = rows.len();
    for i in 0..n
        invariant
            n == rows@.len(),
            r@.len() == i,
            forall|j: int| 0 <= j < i ==> lock_count_of(rows@[j], #[trigger] r@[j]),
    {
        let row = &rows[i];
        r.push(LockCount { mode: owned_str(row, "mode"), count: get_i64(row, "cnt") });
    }
    r
}

} // verus!
