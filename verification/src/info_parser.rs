//! Reading the text that Redis answers to `INFO ALL`.
//!
//! The text is a list of lines. Blank lines and lines that start with `#`
//! (section headers) are skipped. Keyspace lines look like
//! `db0:keys=15420,expires=5,avg_ttl=0` and add one entry each; other
//! lines are `key:value` pairs, of which a fixed set of keys is kept, the
//! last occurrence of a key winning.

use vstd::prelude::*;

use crate::number::{
    is_digit, lemma_parse_i64_of_signed_decimal, parse_i64_range, parse_i64_spec,
    parse_u32_range, parse_u32_spec, signed_decimal,
};
use crate::text::{
    eq_literal, find_char, index_of, is_whitespace, lemma_index_of, lemma_index_of_bounds,
    lemma_split_join, lemma_split_without_sep, lemma_trim_unchanged, split, starts_with,
    starts_with_literal, string_of_range, trim, trim_range,
};

verus! {

/// Parsed data from Redis `INFO ALL`.
///
/// `mem_fragmentation_ratio_text` holds the trimmed text of the last
/// `mem_fragmentation_ratio` line (empty when there is none); reading it
/// as a floating-point number is left to the caller.
#[derive(Debug)]
pub struct RedisInfo {
    pub connected_clients: i64,
    pub blocked_clients: i64,
    pub used_memory: i64,
    pub used_memory_rss: i64,
    pub mem_fragmentation_ratio_text: String,
    pub total_commands_processed: i64,
    pub keyspace_hits: i64,
    pub keyspace_misses: i64,
    pub evicted_keys: i64,
    pub replication_offset: i64,
    pub connected_slaves: i64,
    /// (db_index, keys, expires)
    pub keyspace: Vec<(u32, i64, i64)>,
}

/// The mathematical value of a [`RedisInfo`].
pub struct InfoModel {
    pub connected_clients: i64,
    pub blocked_clients: i64,
    pub used_memory: i64,
    pub used_memory_rss: i64,
    pub mem_fragmentation_ratio_text: Seq<char>,
    pub total_commands_processed: i64,
    pub keyspace_hits: i64,
    pub keyspace_misses: i64,
    pub evicted_keys: i64,
    pub replication_offset: i64,
    pub connected_slaves: i64,
    pub keyspace: Seq<(u32, i64, i64)>,
}

impl View for RedisInfo {
    type V = InfoModel;

    open spec fn view(&self) -> InfoModel {
        InfoModel {
            connected_clients: self.connected_clients,
            blocked_clients: self.blocked_clients,
            used_memory: self.used_memory,
            used_memory_rss: self.used_memory_rss,
            mem_fragmentation_ratio_text: self.mem_fragmentation_ratio_text@,
            total_commands_processed: self.total_commands_processed,
            keyspace_hits: self.keyspace_hits,
            keyspace_misses: self.keyspace_misses,
            evicted_keys: self.evicted_keys,
            replication_offset: self.replication_offset,
            connected_slaves: self.connected_slaves,
            keyspace: self.keyspace@,
        }
    }
}

/// Every counter zero, no fragmentation text, no keyspace entry.
pub open spec fn empty_info() -> InfoModel {
    InfoModel {
        connected_clients: 0,
        blocked_clients: 0,
        used_memory: 0,
        used_memory_rss: 0,
        mem_fragmentation_ratio_text: Seq::empty(),
        total_commands_processed: 0,
        keyspace_hits: 0,
        keyspace_misses: 0,
        evicted_keys: 0,
        replication_offset: 0,
        connected_slaves: 0,
        keyspace: Seq::empty(),
    }
}

/// `value.parse().unwrap_or(0)`.
pub open spec fn int_or_zero(value: Seq<char>) -> i64 {
    match parse_i64_spec(value) {
        Some(v) => v,
        None => 0,
    }
}

/// The effect of one `key:value` line (`value` already trimmed).
pub open spec fn apply_setting(m: InfoModel, key: Seq<char>, value: Seq<char>) -> InfoModel {
    if key == "connected_clients"@ {
        InfoModel { connected_clients: int_or_zero(value), ..m }
    } else if key == "blocked_clients"@ {
        InfoModel { blocked_clients: int_or_zero(value), ..m }
    } else if key == "used_memory"@ {
        InfoModel { used_memory: int_or_zero(value), ..m }
    } else if key == "used_memory_rss"@ {
        InfoModel { used_memory_rss: int_or_zero(value), ..m }
    } else if key == "mem_fragmentation_ratio"@ {
        InfoModel { mem_fragmentation_ratio_text: value, ..m }
    } else if key == "total_commands_processed"@ {
        InfoModel { total_commands_processed: int_or_zero(value), ..m }
    } else if key == "keyspace_hits"@ {
        InfoModel { keyspace_hits: int_or_zero(value), ..m }
    } else if key == "keyspace_misses"@ {
        InfoModel { keyspace_misses: int_or_zero(value), ..m }
    } else if key == "evicted_keys"@ {
        InfoModel { evicted_keys: int_or_zero(value), ..m }
    } else if key == "master_repl_offset"@ {
        InfoModel { replication_offset: int_or_zero(value), ..m }
    } else if key == "connected_slaves"@ {
        InfoModel { connected_slaves: int_or_zero(value), ..m }
    } else {
        m
    }
}

/// The effect of one field of a keyspace line on `(keys, expires)`.
pub open spec fn apply_field(counts: (i64, i64), field: Seq<char>) -> (i64, i64) {
    if starts_with(field, "keys="@) {
        (int_or_zero(field.skip(5)), counts.1)
    } else if starts_with(field, "expires="@) {
        (counts.0, int_or_zero(field.skip(8)))
    } else {
        counts
    }
}

/// `(keys, expires)` after the fields `fields`, starting from `counts`.
pub open spec fn counts_after_fields(counts: (i64, i64), fields: Seq<Seq<char>>) -> (i64, i64)
    decreases fields.len(),
{
    if fields.len() == 0 {
        counts
    } else {
        counts_after_fields(apply_field(counts, fields[0]), fields.drop_first())
    }
}

/// The keyspace entry of a trimmed line: `db<index>:<fields>` with an
/// index that reads as a `u32`; `None` for any other line.
pub open spec fn keyspace_entry(line: Seq<char>) -> Option<(u32, i64, i64)> {
    if starts_with(line, "db"@) {
        let rest = line.skip(2);
        let colon = index_of(rest, ':');
        if colon < rest.len() {
            match parse_u32_spec(rest.take(colon)) {
                Some(db) => {
                    let counts = counts_after_fields((0, 0), split(rest.skip(colon + 1), ','));
                    Some((db, counts.0, counts.1))
                },
                None => None,
            }
        } else {
            None
        }
    } else {
        None
    }
}

/// The keyspace entry of a line, if it is one: a trimmed line that is
/// neither blank nor a `#` header and reads as `db<index>:<fields>`.
pub open spec fn line_entry(line: Seq<char>) -> Option<(u32, i64, i64)> {
    let t = trim(line);
    if t.len() == 0 || t[0] == '#' {
        None
    } else {
        keyspace_entry(t)
    }
}

/// The `(key, value)` of a setting line: a trimmed line that is neither
/// blank, a `#` header nor a keyspace line, split at its first `:`; the
/// value is trimmed, the key is not.
pub open spec fn line_setting(line: Seq<char>) -> Option<(Seq<char>, Seq<char>)> {
    let t = trim(line);
    let colon = index_of(t, ':');
    if t.len() == 0 || t[0] == '#' || keyspace_entry(t) is Some || colon >= t.len() {
        None
    } else {
        Some((t.take(colon), trim(t.skip(colon + 1))))
    }
}

/// The effect of one line of `INFO` output.
pub open spec fn apply_line(m: InfoModel, line: Seq<char>) -> InfoModel {
    match line_entry(line) {
        Some(entry) => InfoModel { keyspace: m.keyspace.push(entry), ..m },
        None => match line_setting(line) {
            Some(kv) => apply_setting(m, kv.0, kv.1),
            None => m,
        },
    }
}

/// The model after the lines `lines`, in order, starting from `m`.
pub open spec fn info_after_lines(m: InfoModel, lines: Seq<Seq<char>>) -> InfoModel
    decreases lines.len(),
{
    if lines.len() == 0 {
        m
    } else {
        info_after_lines(apply_line(m, lines[0]), lines.drop_first())
    }
}

/// What `parse_info` gives for the text `raw`.
pub open spec fn parse_info_spec(raw: Seq<char>) -> InfoModel {
    info_after_lines(empty_info(), split(raw, '\n'))
}

/// Folding over two lists of lines is folding over the first, then over
/// the second.
pub proof fn lemma_info_after_lines_append(m: InfoModel, x: Seq<Seq<char>>, y: Seq<Seq<char>>)
    ensures
        info_after_lines(m, x + y) == info_after_lines(info_after_lines(m, x), y),
    decreases x.len(),
{
    if x.len() == 0 {
        assert(x + y =~= y);
    } else {
        lemma_info_after_lines_append(apply_line(m, x[0]), x.drop_first(), y);
        assert((x + y).drop_first() =~= x.drop_first() + y);
        assert((x + y)[0] == x[0]);
    }
}

/// Lines are read one after another: the text `a`, a newline, then the
/// text `b` reads as `a` does, followed by the lines of `b` applied to
/// that result.
pub proof fn lemma_parse_info_concat(a: Seq<char>, b: Seq<char>)
    ensures
        parse_info_spec(a + seq!['\n'] + b) == info_after_lines(
            parse_info_spec(a),
            split(b, '\n'),
        ),
{
    lemma_split_join(a, b, '\n');
    lemma_info_after_lines_append(empty_info(), split(a, '\n'), split(b, '\n'));
}

/// Blank lines and lines whose first non-blank character is `#` change
/// nothing.
pub proof fn lemma_skipped_line(m: InfoModel, line: Seq<char>)
    requires
        trim(line).len() == 0 || trim(line)[0] == '#',
    ensures
        apply_line(m, line) == m,
{
}

/// One of the keys whose value is kept.
pub open spec fn recognized(key: Seq<char>) -> bool {
    ||| key == "connected_clients"@
    ||| key == "blocked_clients"@
    ||| key == "used_memory"@
    ||| key == "used_memory_rss"@
    ||| key == "mem_fragmentation_ratio"@
    ||| key == "total_commands_processed"@
    ||| key == "keyspace_hits"@
    ||| key == "keyspace_misses"@
    ||| key == "evicted_keys"@
    ||| key == "master_repl_offset"@
    ||| key == "connected_slaves"@
}

/// `m1` and `m2` hold the same value in the field that `key` sets (and
/// agree trivially for any other key).
pub open spec fn field_agrees(m1: InfoModel, m2: InfoModel, key: Seq<char>) -> bool {
    if key == "connected_clients"@ {
        m1.connected_clients == m2.connected_clients
    } else if key == "blocked_clients"@ {
        m1.blocked_clients == m2.blocked_clients
    } else if key == "used_memory"@ {
        m1.used_memory == m2.used_memory
    } else if key == "used_memory_rss"@ {
        m1.used_memory_rss == m2.used_memory_rss
    } else if key == "mem_fragmentation_ratio"@ {
        m1.mem_fragmentation_ratio_text == m2.mem_fragmentation_ratio_text
    } else if key == "total_commands_processed"@ {
        m1.total_commands_processed == m2.total_commands_processed
    } else if key == "keyspace_hits"@ {
        m1.keyspace_hits == m2.keyspace_hits
    } else if key == "keyspace_misses"@ {
        m1.keyspace_misses == m2.keyspace_misses
    } else if key == "evicted_keys"@ {
        m1.evicted_keys == m2.evicted_keys
    } else if key == "master_repl_offset"@ {
        m1.replication_offset == m2.replication_offset
    } else if key == "connected_slaves"@ {
        m1.connected_slaves == m2.connected_slaves
    } else {
        true
    }
}

/// A line that changes nothing: neither a keyspace line nor a setting of a
/// recognised key (blank lines, `#` headers, lines without `:`, unknown
/// keys, and `db` lines whose index does not read as a `u32`).
pub open spec fn is_neutral_line(line: Seq<char>) -> bool {
    &&& line_entry(line) is None
    &&& match line_setting(line) {
        Some(kv) => !recognized(kv.0),
        None => true,
    }
}

/// Some line of `lines` sets `key`.
pub open spec fn sets_key(lines: Seq<Seq<char>>, key: Seq<char>) -> bool
    decreases lines.len(),
{
    if lines.len() == 0 {
        false
    } else {
        (line_setting(lines[0]) matches Some(kv) && kv.0 == key) || sets_key(
            lines.drop_first(),
            key,
        )
    }
}

/// The keyspace entries that `lines` add, in order.
pub open spec fn entries_added(lines: Seq<Seq<char>>) -> Seq<(u32, i64, i64)> {
    info_after_lines(empty_info(), lines).keyspace
}

/// A neutral line changes nothing.
pub proof fn lemma_neutral_line(m: InfoModel, line: Seq<char>)
    requires
        is_neutral_line(line),
    ensures
        apply_line(m, line) == m,
{
}

/// Inserting a neutral line anywhere in a list of lines changes nothing.
pub proof fn lemma_insert_neutral_line(
    m: InfoModel,
    before: Seq<Seq<char>>,
    line: Seq<char>,
    after: Seq<Seq<char>>,
)
    requires
        is_neutral_line(line),
    ensures
        info_after_lines(m, before + seq![line] + after) == info_after_lines(m, before + after),
{
    lemma_info_after_lines_append(m, before + seq![line], after);
    lemma_info_after_lines_append(m, before, seq![line]);
    lemma_info_after_lines_append(m, before, after);
    let mb = info_after_lines(m, before);
    assert(seq![line].drop_first() =~= Seq::<Seq<char>>::empty());
    assert(info_after_lines(mb, seq![line]) == info_after_lines(apply_line(mb, line), Seq::<Seq<char>>::empty()));
}

/// Inserting any number of neutral lines anywhere in a list of lines
/// changes nothing.
pub proof fn lemma_insert_neutral_lines(
    m: InfoModel,
    before: Seq<Seq<char>>,
    inserted: Seq<Seq<char>>,
    after: Seq<Seq<char>>,
)
    requires
        forall|i: int| 0 <= i < inserted.len() ==> is_neutral_line(#[trigger] inserted[i]),
    ensures
        info_after_lines(m, before + inserted + after) == info_after_lines(m, before + after),
    decreases inserted.len(),
{
    if inserted.len() > 0 {
        let line = inserted[0];
        let rest = inserted.drop_first();
        assert(before + inserted + after =~= before + seq![line] + (rest + after));
        lemma_insert_neutral_line(m, before, line, rest + after);
        assert(before + (rest + after) =~= before + rest + after);
        lemma_insert_neutral_lines(m, before, rest, after);
    } else {
        assert(before + inserted + after =~= before + after);
    }
}

/// The lines of `lines` that are not neutral, in order.
pub open spec fn kept_lines(lines: Seq<Seq<char>>) -> Seq<Seq<char>>
    decreases lines.len(),
{
    if lines.len() == 0 {
        Seq::empty()
    } else if is_neutral_line(lines[0]) {
        kept_lines(lines.drop_first())
    } else {
        seq![lines[0]] + kept_lines(lines.drop_first())
    }
}

/// Only the lines that are not neutral count.
pub proof fn lemma_kept_lines(m: InfoModel, lines: Seq<Seq<char>>)
    ensures
        info_after_lines(m, lines) == info_after_lines(m, kept_lines(lines)),
    decreases lines.len(),
{
    if lines.len() > 0 {
        let l = lines[0];
        let rest = lines.drop_first();
        if is_neutral_line(l) {
            lemma_kept_lines(m, rest);
        } else {
            lemma_kept_lines(apply_line(m, l), rest);
            let k = seq![l] + kept_lines(rest);
            assert(k[0] == l);
            assert(k.drop_first() =~= kept_lines(rest));
        }
    }
}

/// Keeping the lines that are not neutral goes piece by piece.
pub proof fn lemma_kept_lines_append(x: Seq<Seq<char>>, y: Seq<Seq<char>>)
    ensures
        kept_lines(x + y) == kept_lines(x) + kept_lines(y),
    decreases x.len(),
{
    if x.len() == 0 {
        assert(x + y =~= y);
        assert(Seq::<Seq<char>>::empty() + kept_lines(y) =~= kept_lines(y));
    } else {
        assert((x + y)[0] == x[0]);
        assert((x + y).drop_first() =~= x.drop_first() + y);
        lemma_kept_lines_append(x.drop_first(), y);
        if !is_neutral_line(x[0]) {
            assert(seq![x[0]] + (kept_lines(x.drop_first()) + kept_lines(y)) =~= (seq![x[0]]
                + kept_lines(x.drop_first())) + kept_lines(y));
        }
    }
}

/// Inserting neutral lines anywhere leaves the kept lines as they were.
pub proof fn lemma_kept_lines_insert(
    before: Seq<Seq<char>>,
    inserted: Seq<Seq<char>>,
    after: Seq<Seq<char>>,
)
    requires
        forall|i: int| 0 <= i < inserted.len() ==> is_neutral_line(#[trigger] inserted[i]),
    ensures
        kept_lines(before + inserted + after) == kept_lines(before + after),
{
    lemma_kept_lines_append(before + inserted, after);
    lemma_kept_lines_append(before, inserted);
    lemma_kept_lines_append(before, after);
    lemma_kept_all_neutral(inserted);
    assert(kept_lines(before) + Seq::<Seq<char>>::empty() =~= kept_lines(before));
}

/// A list of neutral lines keeps nothing.
proof fn lemma_kept_all_neutral(lines: Seq<Seq<char>>)
    requires
        forall|i: int| 0 <= i < lines.len() ==> is_neutral_line(#[trigger] lines[i]),
    ensures
        kept_lines(lines) == Seq::<Seq<char>>::empty(),
    decreases lines.len(),
{
    if lines.len() > 0 {
        assert(is_neutral_line(lines[0]));
        let rest = lines.drop_first();
        assert forall|i: int| 0 <= i < rest.len() implies is_neutral_line(#[trigger] rest[i]) by {
            assert(rest[i] == lines[i + 1]);
        }
        lemma_kept_all_neutral(rest);
    }
}

/// Two texts whose lines that are not neutral are the same, in the same
/// order, read alike. So a text with neutral lines inserted anywhere, at any
/// number of places (at the start, between lines, at the end), reads as the
/// text without them, field by field and keyspace included.
pub proof fn lemma_parse_info_kept_lines(raw1: Seq<char>, raw2: Seq<char>)
    requires
        kept_lines(split(raw1, '\n')) == kept_lines(split(raw2, '\n')),
    ensures
        parse_info_spec(raw1) == parse_info_spec(raw2),
{
    lemma_kept_lines(empty_info(), split(raw1, '\n'));
    lemma_kept_lines(empty_info(), split(raw2, '\n'));
}

/// `lines2` is `lines` with neutral lines inserted at any number of places:
/// before the first line, between lines, or after the last.
pub open spec fn neutral_lines_inserted(lines2: Seq<Seq<char>>, lines: Seq<Seq<char>>) -> bool
    decreases lines2.len(),
{
    if lines2.len() == 0 {
        lines.len() == 0
    } else {
        ||| (lines.len() > 0 && lines2[0] == lines[0] && neutral_lines_inserted(
            lines2.drop_first(),
            lines.drop_first(),
        ))
        ||| (is_neutral_line(lines2[0]) && neutral_lines_inserted(lines2.drop_first(), lines))
    }
}

/// Inserted neutral lines leave the kept lines as they were.
proof fn lemma_neutral_lines_inserted_kept(lines2: Seq<Seq<char>>, lines: Seq<Seq<char>>)
    requires
        neutral_lines_inserted(lines2, lines),
    ensures
        kept_lines(lines2) == kept_lines(lines),
    decreases lines2.len(),
{
    if lines2.len() > 0 {
        if lines.len() > 0 && lines2[0] == lines[0] && neutral_lines_inserted(
            lines2.drop_first(),
            lines.drop_first(),
        ) {
            lemma_neutral_lines_inserted_kept(lines2.drop_first(), lines.drop_first());
        } else {
            lemma_neutral_lines_inserted_kept(lines2.drop_first(), lines);
        }
    }
}

/// A text whose lines are those of `raw` with neutral lines inserted at any
/// number of places reads as `raw` does, field by field and keyspace
/// included.
pub proof fn lemma_parse_info_neutral_lines_inserted(raw: Seq<char>, raw2: Seq<char>)
    requires
        neutral_lines_inserted(split(raw2, '\n'), split(raw, '\n')),
    ensures
        parse_info_spec(raw2) == parse_info_spec(raw),
{
    lemma_neutral_lines_inserted_kept(split(raw2, '\n'), split(raw, '\n'));
    lemma_parse_info_kept_lines(raw2, raw);
}

/// Inserting a neutral line between two texts, before a text or after a
/// text leaves what `parse_info` reads unchanged.
pub proof fn lemma_parse_info_neutral_line(a: Seq<char>, line: Seq<char>, b: Seq<char>)
    requires
        is_neutral_line(line),
        forall|i: int| 0 <= i < line.len() ==> line[i] != '\n',
    ensures
        parse_info_spec(a + seq!['\n'] + line + seq!['\n'] + b) == parse_info_spec(
            a + seq!['\n'] + b,
        ),
        parse_info_spec(line + seq!['\n'] + b) == parse_info_spec(b),
        parse_info_spec(a + seq!['\n'] + line) == parse_info_spec(a),
{
    crate::text::lemma_split_without_sep(line, '\n');
    let sa = split(a, '\n');
    let sb = split(b, '\n');
    lemma_split_join(a, line + seq!['\n'] + b, '\n');
    lemma_split_join(line, b, '\n');
    assert(a + seq!['\n'] + line + seq!['\n'] + b =~= a + seq!['\n'] + (line + seq!['\n'] + b));
    lemma_split_join(a, b, '\n');
    assert(sa + (seq![line] + sb) =~= sa + seq![line] + sb);
    lemma_insert_neutral_line(empty_info(), sa, line, sb);
    lemma_insert_neutral_line(empty_info(), Seq::empty(), line, sb);
    assert(Seq::<Seq<char>>::empty() + seq![line] + sb =~= seq![line] + sb);
    assert(Seq::<Seq<char>>::empty() + sb =~= sb);
    lemma_split_join(a, line, '\n');
    lemma_insert_neutral_line(empty_info(), sa, line, Seq::empty());
    assert(sa + seq![line] + Seq::<Seq<char>>::empty() =~= sa + seq![line]);
    assert(sa + Seq::<Seq<char>>::empty() =~= sa);
}

/// A line that is no setting of `key` leaves the field of `key` as it was;
/// a line that sets `key` decides the field whatever came before.
proof fn lemma_line_field(m1: InfoModel, m2: InfoModel, line: Seq<char>, key: Seq<char>)
    ensures
        !(line_setting(line) matches Some(kv) && kv.0 == key) ==> field_agrees(
            apply_line(m1, line),
            m1,
            key,
        ),
        (line_setting(line) matches Some(kv) && kv.0 == key) ==> field_agrees(
            apply_line(m1, line),
            apply_line(m2, line),
            key,
        ),
{
}

/// `field_agrees` is an equivalence for a fixed key.
proof fn lemma_field_agrees_equiv(m1: InfoModel, m2: InfoModel, m3: InfoModel, key: Seq<char>)
    ensures
        field_agrees(m1, m1, key),
        field_agrees(m1, m2, key) ==> field_agrees(m2, m1, key),
        field_agrees(m1, m2, key) && field_agrees(m2, m3, key) ==> field_agrees(m1, m3, key),
{
}

/// Lines that never set `key` leave its field as it was; lines that do set
/// it decide it whatever the starting point.
pub proof fn lemma_lines_field(m1: InfoModel, m2: InfoModel, lines: Seq<Seq<char>>, key: Seq<char>)
    ensures
        !sets_key(lines, key) ==> field_agrees(info_after_lines(m1, lines), m1, key),
        sets_key(lines, key) ==> field_agrees(
            info_after_lines(m1, lines),
            info_after_lines(m2, lines),
            key,
        ),
    decreases lines.len(),
{
    if lines.len() > 0 {
        let l = lines[0];
        let rest = lines.drop_first();
        let a1 = apply_line(m1, l);
        let a2 = apply_line(m2, l);
        lemma_lines_field(a1, a2, rest, key);
        lemma_lines_field(a2, a1, rest, key);
        lemma_line_field(m1, m2, l, key);
        lemma_line_field(m2, m1, l, key);
        let f1 = info_after_lines(a1, rest);
        let f2 = info_after_lines(a2, rest);
        lemma_field_agrees_equiv(f1, a1, m1, key);
        lemma_field_agrees_equiv(f1, a1, a2, key);
        lemma_field_agrees_equiv(a1, a2, f2, key);
        lemma_field_agrees_equiv(f2, a2, a1, key);
        lemma_field_agrees_equiv(f1, a2, f2, key);
    } else {
        lemma_field_agrees_equiv(m1, m1, m1, key);
    }
}

/// The keyspace after some lines is the starting keyspace followed by the
/// entries those lines add.
pub proof fn lemma_lines_keyspace(m: InfoModel, lines: Seq<Seq<char>>)
    ensures
        info_after_lines(m, lines).keyspace == m.keyspace + entries_added(lines),
    decreases lines.len(),
{
    if lines.len() == 0 {
        assert(m.keyspace + Seq::<(u32, i64, i64)>::empty() =~= m.keyspace);
    } else {
        let l = lines[0];
        let rest = lines.drop_first();
        lemma_lines_keyspace(apply_line(m, l), rest);
        lemma_lines_keyspace(apply_line(empty_info(), l), rest);
        assert(empty_info().keyspace + apply_line(empty_info(), l).keyspace =~= apply_line(
            empty_info(),
            l,
        ).keyspace);
        assert(apply_line(m, l).keyspace + entries_added(rest) =~= m.keyspace + (apply_line(
            empty_info(),
            l,
        ).keyspace + entries_added(rest)));
    }
}

/// Reading `a`, a newline, then `b`: the keyspace is that of `a` followed by
/// that of `b`, and each kept field has `b`'s value where `b` sets it and
/// `a`'s value otherwise.
pub proof fn lemma_parse_info_concat_fields(a: Seq<char>, b: Seq<char>, key: Seq<char>)
    ensures
        parse_info_spec(a + seq!['\n'] + b).keyspace == parse_info_spec(a).keyspace
            + parse_info_spec(b).keyspace,
        sets_key(split(b, '\n'), key) ==> field_agrees(
            parse_info_spec(a + seq!['\n'] + b),
            parse_info_spec(b),
            key,
        ),
        !sets_key(split(b, '\n'), key) ==> field_agrees(
            parse_info_spec(a + seq!['\n'] + b),
            parse_info_spec(a),
            key,
        ),
{
    lemma_parse_info_concat(a, b);
    let lb = split(b, '\n');
    lemma_lines_keyspace(parse_info_spec(a), lb);
    lemma_lines_field(parse_info_spec(a), empty_info(), lb, key);
}

impl Default for RedisInfo {
    fn default() -> (info: Self)
        ensures
            info@ == empty_info(),
    {
        RedisInfo {
            connected_clients: 0,
            blocked_clients: 0,
            used_memory: 0,
            used_memory_rss: 0,
            mem_fragmentation_ratio_text: String::new(),
            total_commands_processed: 0,
            keyspace_hits: 0,
            keyspace_misses: 0,
            evicted_keys: 0,
            replication_offset: 0,
            connected_slaves: 0,
            keyspace: Vec::new(),
        }
    }
}

/// `(keys, expires)` read from the fields in `v[start..end]`.
fn keyspace_counts(v: &Vec<char>, start: usize, end: usize) -> (r: (i64, i64))
    requires
        start <= end <= v@.len(),
    ensures
        r == counts_after_fields((0, 0), split(v@.subrange(start as int, end as int), ',')),
{
    let mut keys: i64 = 0;
    let mut expires: i64 = 0;
    let mut pos: usize = start;
    loop
        invariant
            start <= pos <= end <= v@.len(),
            counts_after_fields((keys, expires), split(v@.subrange(pos as int, end as int), ','))
                == counts_after_fields((0, 0), split(v@.subrange(start as int, end as int), ',')),
        decreases end - pos,
    {
        let comma: usize = find_char(v, pos, end, ',');
        let ghost s = v@.subrange(pos as int, end as int);
        let ghost field = v@.subrange(pos as int, comma as int);
        proof {
            lemma_index_of_bounds(s, ',');
            assert(s.take(comma - pos) =~= field);
        }
        let ghost before = (keys, expires);
        proof {
            reveal_strlit("keys=");
            reveal_strlit("expires=");
        }
        if starts_with_literal(v, pos, comma, "keys=") {
            assert(field.skip(5) =~= v@.subrange(pos + 5, comma as int));
            keys = match parse_i64_range(v, pos + 5, comma) {
                Some(x) => x,
                None => 0,
            };
        } else if starts_with_literal(v, pos, comma, "expires=") {
            assert(field.skip(8) =~= v@.subrange(pos + 8, comma as int));
            expires = match parse_i64_range(v, pos + 8, comma) {
                Some(x) => x,
                None => 0,
            };
        }
        if comma == end {
            assert(split(s, ',') =~= seq![field]);
            assert(split(s, ',').drop_first() =~= Seq::<Seq<char>>::empty());
            assert(counts_after_fields(before, split(s, ',')) == counts_after_fields(
                (keys, expires),
                Seq::<Seq<char>>::empty(),
            ));
            return (keys, expires);
        }
        assert(s.skip(comma - pos + 1) =~= v@.subrange(comma + 1, end as int));
        assert(split(s, ',').drop_first() =~= split(v@.subrange(comma + 1, end as int), ','));
        pos = comma + 1;
    }
}

/// The keyspace entry of the trimmed line `v[start..end]`, if it is one.
fn parse_keyspace_entry(v: &Vec<char>, start: usize, end: usize) -> (r: Option<(u32, i64, i64)>)
    requires
        start <= end <= v@.len(),
    ensures
        r == keyspace_entry(v@.subrange(start as int, end as int)),
{
    let ghost line = v@.subrange(start as int, end as int);
    proof {
        reveal_strlit("db");
    }
    if !starts_with_literal(v, start, end, "db") {
        return None;
    }
    let ghost rest = line.skip(2);
    assert(rest =~= v@.subrange(start + 2, end as int));
    let colon: usize = find_char(v, start + 2, end, ':');
    proof {
        lemma_index_of_bounds(rest, ':');
    }
    if colon == end {
        return None;
    }
    assert(rest.take(colon - start - 2) =~= v@.subrange(start + 2, colon as int));
    assert(rest.skip(colon - start - 2 + 1) =~= v@.subrange(colon + 1, end as int));
    match parse_u32_range(v, start + 2, colon) {
        Some(db) => {
            let counts = keyspace_counts(v, colon + 1, end);
            Some((db, counts.0, counts.1))
        },
        None => None,
    }
}

/// Applies the `key:value` line whose key is `v[ks..ke]` and whose trimmed
/// value is `v[vs..ve]`.
fn apply_setting_exec(info: &mut RedisInfo, v: &Vec<char>, ks: usize, ke: usize, vs: usize, ve: usize)
    requires
        ks <= ke <= v@.len(),
        vs <= ve <= v@.len(),
    ensures
        final(info)@ == apply_setting(
            old(info)@,
            v@.subrange(ks as int, ke as int),
            v@.subrange(vs as int, ve as int),
        ),
{
    let ghost value = v@.subrange(vs as int, ve as int);
    let n: i64 = match parse_i64_range(v, vs, ve) {
        Some(x) => x,
        None => 0,
    };
    assert(n == int_or_zero(value));
    if eq_literal(v, ks, ke, "connected_clients") {
        info.connected_clients = n;
    } else if eq_literal(v, ks, ke, "blocked_clients") {
        info.blocked_clients = n;
    } else if eq_literal(v, ks, ke, "used_memory") {
        info.used_memory = n;
    } else if eq_literal(v, ks, ke, "used_memory_rss") {
        info.used_memory_rss = n;
    } else if eq_literal(v, ks, ke, "mem_fragmentation_ratio") {
        info.mem_fragmentation_ratio_text = string_of_range(v, vs, ve);
    } else if eq_literal(v, ks, ke, "total_commands_processed") {
        info.total_commands_processed = n;
    } else if eq_literal(v, ks, ke, "keyspace_hits") {
        info.keyspace_hits = n;
    } else if eq_literal(v, ks, ke, "keyspace_misses") {
        info.keyspace_misses = n;
    } else if eq_literal(v, ks, ke, "evicted_keys") {
        info.evicted_keys = n;
    } else if eq_literal(v, ks, ke, "master_repl_offset") {
        info.replication_offset = n;
    } else if eq_literal(v, ks, ke, "connected_slaves") {
        info.connected_slaves = n;
    }
}

/// Applies the line `v[start..end]`.
fn apply_line_exec(info: &mut RedisInfo, v: &Vec<char>, start: usize, end: usize)
    requires
        start <= end <= v@.len(),
    ensures
        final(info)@ == apply_line(old(info)@, v@.subrange(start as int, end as int)),
{
    let (a, b) = trim_range(v, start, end);
    let ghost t = v@.subrange(a as int, b as int);
    if a == b || v[a] == '#' {
        return;
    }
    match parse_keyspace_entry(v, a, b) {
        Some(entry) => {
            info.keyspace.push(entry);
        },
        None => {
            let colon: usize = find_char(v, a, b, ':');
            proof {
                lemma_index_of_bounds(t, ':');
            }
            if colon < b {
                let (vs, ve) = trim_range(v, colon + 1, b);
                assert(t.take(colon - a) =~= v@.subrange(a as int, colon as int));
                assert(t.skip(colon - a + 1) =~= v@.subrange(colon + 1, b as int));
                apply_setting_exec(info, v, a, colon, vs, ve);
            }
        },
    }
}

/// Parse the text returned by `INFO ALL` into a [`RedisInfo`].
pub fn parse_info(raw: &str) -> (info: RedisInfo)
    ensures
        info@ == parse_info_spec(raw@),
{
    let v = crate::text::chars_of(raw);
    let mut info = RedisInfo::default();
    let mut pos: usize = 0;
    assert(v@.subrange(0, v@.len() as int) =~= raw@);
    loop
        invariant
            pos <= v@.len(),
            v@ == raw@,
            info_after_lines(info@, split(v@.subrange(pos as int, v@.len() as int), '\n'))
                == parse_info_spec(raw@),
        decreases v@.len() - pos,
    {
        let end: usize = v.len();
        let nl: usize = find_char(&v, pos, end, '\n');
        let ghost s = v@.subrange(pos as int, end as int);
        let ghost line = v@.subrange(pos as int, nl as int);
        proof {
            lemma_index_of_bounds(s, '\n');
            assert(s.take(nl - pos) =~= line);
        }
        let ghost before = info@;
        apply_line_exec(&mut info, &v, pos, nl);
        if nl == end {
            assert(split(s, '\n') =~= seq![line]);
            assert(split(s, '\n').drop_first() =~= Seq::<Seq<char>>::empty());
            assert(info_after_lines(before, split(s, '\n')) == info_after_lines(
                info@,
                Seq::<Seq<char>>::empty(),
            ));
            return info;
        }
        assert(s.skip(nl - pos + 1) =~= v@.subrange(nl + 1, end as int));
        assert(split(s, '\n').drop_first() =~= split(v@.subrange(nl + 1, end as int), '\n'));
        pos = nl + 1;
    }
}


/// The characters of the keys `INFO` reports: lower-case ASCII letters and
/// `_`.
pub open spec fn is_key_char(c: char) -> bool {
    ('a' <= c && c <= 'z') || c == '_'
}

/// A value text as `INFO` writes it: not empty, no line break, no
/// whitespace at either end.
pub open spec fn is_plain_value(v: Seq<char>) -> bool {
    &&& v.len() > 0
    &&& !is_whitespace(v[0])
    &&& !is_whitespace(v.last())
    &&& forall|j: int| 0 <= j < v.len() ==> #[trigger] v[j] != '\n'
}

/// The line `key:value`.
pub open spec fn setting_line(key: Seq<char>, value: Seq<char>) -> Seq<char> {
    key + seq![':'] + value
}

/// A line `key:value` whose key is made of key characters and does not
/// begin with `d` is read as the setting of `key` to `value`; the line is a
/// text of its own (no newline).
proof fn lemma_setting_line(m: InfoModel, key: Seq<char>, value: Seq<char>)
    requires
        key.len() > 0,
        key[0] != 'd',
        forall|j: int| 0 <= j < key.len() ==> is_key_char(#[trigger] key[j]),
        is_plain_value(value),
    ensures
        apply_line(m, setting_line(key, value)) == apply_setting(m, key, value),
        split(setting_line(key, value), '\n') == seq![setting_line(key, value)],
{
    reveal_strlit("db");
    let line = setting_line(key, value);
    let k = key.len() as int;
    assert(line[0] == key[0]);
    assert(is_key_char(key[0]));
    assert(line.last() == value.last());
    lemma_trim_unchanged(line);
    lemma_trim_unchanged(value);
    assert(line.take(2)[0] == line[0]);
    assert(!starts_with(line, "db"@));
    assert forall|j: int| 0 <= j < k implies line[j] != ':' by {
        assert(line[j] == key[j]);
        assert(is_key_char(key[j]));
    }
    assert(line[k] == ':');
    lemma_index_of(line, ':', k);
    assert(line.take(k) =~= key);
    assert(line.skip(k + 1) =~= value);
    assert forall|j: int| 0 <= j < line.len() implies line[j] != '\n' by {
        if j < k {
            assert(line[j] == key[j]);
            assert(is_key_char(key[j]));
        } else if j > k {
            assert(line[j] == value[j - k - 1]);
        }
    }
    lemma_split_without_sep(line, '\n');
}

/// A text of one line is read as that line applied to the empty model.
proof fn lemma_parse_one_line(line: Seq<char>)
    requires
        split(line, '\n') == seq![line],
    ensures
        parse_info_spec(line) == apply_line(empty_info(), line),
{
    let lines = seq![line];
    assert(lines.drop_first() =~= Seq::<Seq<char>>::empty());
    assert(lines[0] == line);
    let after = apply_line(empty_info(), line);
    assert(info_after_lines(after, Seq::<Seq<char>>::empty()) == after);
    assert(info_after_lines(empty_info(), lines) == info_after_lines(after, lines.drop_first()));
}

/// `signed_decimal(n)` is a plain value that reads back as `n`.
proof fn lemma_number_value(n: i64)
    ensures
        is_plain_value(signed_decimal(n as int)),
        int_or_zero(signed_decimal(n as int)) == n,
{
    lemma_parse_i64_of_signed_decimal(n);
    let v = signed_decimal(n as int);
    assert(v[0] == '-' || is_digit(v[0]));
    assert forall|j: int| 0 <= j < v.len() implies #[trigger] v[j] != '\n' by {
        assert(v[j] == '-' || is_digit(v[j]));
    }
}

/// `connected_clients:<n>` sets `connected_clients` to `n` and changes nothing else.
proof fn lemma_setting_connected_clients(m: InfoModel, n: i64)
    ensures
        apply_line(m, setting_line("connected_clients"@, signed_decimal(n as int))) == (InfoModel { connected_clients: n, ..m }),
        split(setting_line("connected_clients"@, signed_decimal(n as int)), '\n') == seq![
            setting_line("connected_clients"@, signed_decimal(n as int)),
        ],
{
    reveal_strlit("connected_clients");
    reveal_strlit("blocked_clients");
    reveal_strlit("used_memory");
    reveal_strlit("used_memory_rss");
    reveal_strlit("total_commands_processed");
    reveal_strlit("keyspace_hits");
    reveal_strlit("keyspace_misses");
    reveal_strlit("evicted_keys");
    reveal_strlit("master_repl_offset");
    reveal_strlit("connected_slaves");
    reveal_strlit("mem_fragmentation_ratio");
    let key = "connected_clients"@;
    assert(forall|j: int| 0 <= j < key.len() ==> is_key_char(#[trigger] key[j]));
    lemma_number_value(n);
    lemma_setting_line(m, key, signed_decimal(n as int));
}

/// `blocked_clients:<n>` sets `blocked_clients` to `n` and changes nothing else.
proof fn lemma_setting_blocked_clients(m: InfoModel, n: i64)
    ensures
        apply_line(m, setting_line("blocked_clients"@, signed_decimal(n as int))) == (InfoModel { blocked_clients: n, ..m }),
        split(setting_line("blocked_clients"@, signed_decimal(n as int)), '\n') == seq![
            setting_line("blocked_clients"@, signed_decimal(n as int)),
        ],
{
    reveal_strlit("connected_clients");
    reveal_strlit("blocked_clients");
    reveal_strlit("used_memory");
    reveal_strlit("used_memory_rss");
    reveal_strlit("total_commands_processed");
    reveal_strlit("keyspace_hits");
    reveal_strlit("keyspace_misses");
    reveal_strlit("evicted_keys");
    reveal_strlit("master_repl_offset");
    reveal_strlit("connected_slaves");
    reveal_strlit("mem_fragmentation_ratio");
    let key = "blocked_clients"@;
    assert(forall|j: int| 0 <= j < key.len() ==> is_key_char(#[trigger] key[j]));
    lemma_number_value(n);
    lemma_setting_line(m, key, signed_decimal(n as int));
}

/// `used_memory:<n>` sets `used_memory` to `n` and changes nothing else.
proof fn lemma_setting_used_memory(m: InfoModel, n: i64)
    ensures
        apply_line(m, setting_line("used_memory"@, signed_decimal(n as int))) == (InfoModel { used_memory: n, ..m }),
        split(setting_line("used_memory"@, signed_decimal(n as int)), '\n') == seq![
            setting_line("used_memory"@, signed_decimal(n as int)),
        ],
{
    reveal_strlit("connected_clients");
    reveal_strlit("blocked_clients");
    reveal_strlit("used_memory");
    reveal_strlit("used_memory_rss");
    reveal_strlit("total_commands_processed");
    reveal_strlit("keyspace_hits");
    reveal_strlit("keyspace_misses");
    reveal_strlit("evicted_keys");
    reveal_strlit("master_repl_offset");
    reveal_strlit("connected_slaves");
    reveal_strlit("mem_fragmentation_ratio");
    let key = "used_memory"@;
    assert(forall|j: int| 0 <= j < key.len() ==> is_key_char(#[trigger] key[j]));
    lemma_number_value(n);
    lemma_setting_line(m, key, signed_decimal(n as int));
}

/// `used_memory_rss:<n>` sets `used_memory_rss` to `n` and changes nothing else.
proof fn lemma_setting_used_memory_rss(m: InfoModel, n: i64)
    ensures
        apply_line(m, setting_line("used_memory_rss"@, signed_decimal(n as int))) == (InfoModel { used_memory_rss: n, ..m }),
        split(setting_line("used_memory_rss"@, signed_decimal(n as int)), '\n') == seq![
            setting_line("used_memory_rss"@, signed_decimal(n as int)),
        ],
{
    reveal_strlit("connected_clients");
    reveal_strlit("blocked_clients");
    reveal_strlit("used_memory");
    reveal_strlit("used_memory_rss");
    reveal_strlit("total_commands_processed");
    reveal_strlit("keyspace_hits");
    reveal_strlit("keyspace_misses");
    reveal_strlit("evicted_keys");
    reveal_strlit("master_repl_offset");
    reveal_strlit("connected_slaves");
    reveal_strlit("mem_fragmentation_ratio");
    let key = "used_memory_rss"@;
    assert(forall|j: int| 0 <= j < key.len() ==> is_key_char(#[trigger] key[j]));
    lemma_number_value(n);
    lemma_setting_line(m, key, signed_decimal(n as int));
}

/// `total_commands_processed:<n>` sets `total_commands_processed` to `n` and changes nothing else.
proof fn lemma_setting_total_commands_processed(m: InfoModel, n: i64)
    ensures
        apply_line(m, setting_line("total_commands_processed"@, signed_decimal(n as int))) == (InfoModel { total_commands_processed: n, ..m }),
        split(setting_line("total_commands_processed"@, signed_decimal(n as int)), '\n') == seq![
            setting_line("total_commands_processed"@, signed_decimal(n as int)),
        ],
{
    reveal_strlit("connected_clients");
    reveal_strlit("blocked_clients");
    reveal_strlit("used_memory");
    reveal_strlit("used_memory_rss");
    reveal_strlit("total_commands_processed");
    reveal_strlit("keyspace_hits");
    reveal_strlit("keyspace_misses");
    reveal_strlit("evicted_keys");
    reveal_strlit("master_repl_offset");
    reveal_strlit("connected_slaves");
    reveal_strlit("mem_fragmentation_ratio");
    let key = "total_commands_processed"@;
    assert(forall|j: int| 0 <= j < key.len() ==> is_key_char(#[trigger] key[j]));
    lemma_number_value(n);
    lemma_setting_line(m, key, signed_decimal(n as int));
}

/// `keyspace_hits:<n>` sets `keyspace_hits` to `n` and changes nothing else.
proof fn lemma_setting_keyspace_hits(m: InfoModel, n: i64)
    ensures
        apply_line(m, setting_line("keyspace_hits"@, signed_decimal(n as int))) == (InfoModel { keyspace_hits: n, ..m }),
        split(setting_line("keyspace_hits"@, signed_decimal(n as int)), '\n') == seq![
            setting_line("keyspace_hits"@, signed_decimal(n as int)),
        ],
{
    reveal_strlit("connected_clients");
    reveal_strlit("blocked_clients");
    reveal_strlit("used_memory");
    reveal_strlit("used_memory_rss");
    reveal_strlit("total_commands_processed");
    reveal_strlit("keyspace_hits");
    reveal_strlit("keyspace_misses");
    reveal_strlit("evicted_keys");
    reveal_strlit("master_repl_offset");
    reveal_strlit("connected_slaves");
    reveal_strlit("mem_fragmentation_ratio");
    let key = "keyspace_hits"@;
    assert(forall|j: int| 0 <= j < key.len() ==> is_key_char(#[trigger] key[j]));
    lemma_number_value(n);
    lemma_setting_line(m, key, signed_decimal(n as int));
}

/// `keyspace_misses:<n>` sets `keyspace_misses` to `n` and changes nothing else.
proof fn lemma_setting_keyspace_misses(m: InfoModel, n: i64)
    ensures
        apply_line(m, setting_line("keyspace_misses"@, signed_decimal(n as int))) == (InfoModel { keyspace_misses: n, ..m }),
        split(setting_line("keyspace_misses"@, signed_decimal(n as int)), '\n') == seq![
            setting_line("keyspace_misses"@, signed_decimal(n as int)),
        ],
{
    reveal_strlit("connected_clients");
    reveal_strlit("blocked_clients");
    reveal_strlit("used_memory");
    reveal_strlit("used_memory_rss");
    reveal_strlit("total_commands_processed");
    reveal_strlit("keyspace_hits");
    reveal_strlit("keyspace_misses");
    reveal_strlit("evicted_keys");
    reveal_strlit("master_repl_offset");
    reveal_strlit("connected_slaves");
    reveal_strlit("mem_fragmentation_ratio");
    let key = "keyspace_misses"@;
    assert(forall|j: int| 0 <= j < key.len() ==> is_key_char(#[trigger] key[j]));
    lemma_number_value(n);
    lemma_setting_line(m, key, signed_decimal(n as int));
}

/// `evicted_keys:<n>` sets `evicted_keys` to `n` and changes nothing else.
proof fn lemma_setting_evicted_keys(m: InfoModel, n: i64)
    ensures
        apply_line(m, setting_line("evicted_keys"@, signed_decimal(n as int))) == (InfoModel { evicted_keys: n, ..m }),
        split(setting_line("evicted_keys"@, signed_decimal(n as int)), '\n') == seq![
            setting_line("evicted_keys"@, signed_decimal(n as int)),
        ],
{
    reveal_strlit("connected_clients");
    reveal_strlit("blocked_clients");
    reveal_strlit("used_memory");
    reveal_strlit("used_memory_rss");
    reveal_strlit("total_commands_processed");
    reveal_strlit("keyspace_hits");
    reveal_strlit("keyspace_misses");
    reveal_strlit("evicted_keys");
    reveal_strlit("master_repl_offset");
    reveal_strlit("connected_slaves");
    reveal_strlit("mem_fragmentation_ratio");
    let key = "evicted_keys"@;
    assert(forall|j: int| 0 <= j < key.len() ==> is_key_char(#[trigger] key[j]));
    lemma_number_value(n);
    lemma_setting_line(m, key, signed_decimal(n as int));
}

/// `master_repl_offset:<n>` sets `replication_offset` to `n` and changes nothing else.
proof fn lemma_setting_replication_offset(m: InfoModel, n: i64)
    ensures
        apply_line(m, setting_line("master_repl_offset"@, signed_decimal(n as int))) == (InfoModel { replication_offset: n, ..m }),
        split(setting_line("master_repl_offset"@, signed_decimal(n as int)), '\n') == seq![
            setting_line("master_repl_offset"@, signed_decimal(n as int)),
        ],
{
    reveal_strlit("connected_clients");
    reveal_strlit("blocked_clients");
    reveal_strlit("used_memory");
    reveal_strlit("used_memory_rss");
    reveal_strlit("total_commands_processed");
    reveal_strlit("keyspace_hits");
    reveal_strlit("keyspace_misses");
    reveal_strlit("evicted_keys");
    reveal_strlit("master_repl_offset");
    reveal_strlit("connected_slaves");
    reveal_strlit("mem_fragmentation_ratio");
    let key = "master_repl_offset"@;
    assert(forall|j: int| 0 <= j < key.len() ==> is_key_char(#[trigger] key[j]));
    lemma_number_value(n);
    lemma_setting_line(m, key, signed_decimal(n as int));
}

/// `connected_slaves:<n>` sets `connected_slaves` to `n` and changes nothing else.
proof fn lemma_setting_connected_slaves(m: InfoModel, n: i64)
    ensures
        apply_line(m, setting_line("connected_slaves"@, signed_decimal(n as int))) == (InfoModel { connected_slaves: n, ..m }),
        split(setting_line("connected_slaves"@, signed_decimal(n as int)), '\n') == seq![
            setting_line("connected_slaves"@, signed_decimal(n as int)),
        ],
{
    reveal_strlit("connected_clients");
    reveal_strlit("blocked_clients");
    reveal_strlit("used_memory");
    reveal_strlit("used_memory_rss");
    reveal_strlit("total_commands_processed");
    reveal_strlit("keyspace_hits");
    reveal_strlit("keyspace_misses");
    reveal_strlit("evicted_keys");
    reveal_strlit("master_repl_offset");
    reveal_strlit("connected_slaves");
    reveal_strlit("mem_fragmentation_ratio");
    let key = "connected_slaves"@;
    assert(forall|j: int| 0 <= j < key.len() ==> is_key_char(#[trigger] key[j]));
    lemma_number_value(n);
    lemma_setting_line(m, key, signed_decimal(n as int));
}

/// Reading what is written: for every kept integer key and every `i64`
/// `n`, written as `Display` writes it, the line `<key>:<n>` sets that
/// key's field to `n`, whatever the earlier lines set, and leaves every
/// other field and the keyspace as they were. (`master_repl_offset` is
/// kept as `replication_offset`.)
pub proof fn lemma_setting_roundtrip(m: InfoModel, n: i64)
    ensures
        apply_line(m, setting_line("connected_clients"@, signed_decimal(n as int))) == (InfoModel {
            connected_clients: n,
            ..m
        }),
        apply_line(m, setting_line("blocked_clients"@, signed_decimal(n as int))) == (InfoModel {
            blocked_clients: n,
            ..m
        }),
        apply_line(m, setting_line("used_memory"@, signed_decimal(n as int))) == (InfoModel {
            used_memory: n,
            ..m
        }),
        apply_line(m, setting_line("used_memory_rss"@, signed_decimal(n as int))) == (InfoModel {
            used_memory_rss: n,
            ..m
        }),
        apply_line(m, setting_line("total_commands_processed"@, signed_decimal(n as int))) == (InfoModel {
            total_commands_processed: n,
            ..m
        }),
        apply_line(m, setting_line("keyspace_hits"@, signed_decimal(n as int))) == (InfoModel {
            keyspace_hits: n,
            ..m
        }),
        apply_line(m, setting_line("keyspace_misses"@, signed_decimal(n as int))) == (InfoModel {
            keyspace_misses: n,
            ..m
        }),
        apply_line(m, setting_line("evicted_keys"@, signed_decimal(n as int))) == (InfoModel {
            evicted_keys: n,
            ..m
        }),
        apply_line(m, setting_line("master_repl_offset"@, signed_decimal(n as int))) == (InfoModel {
            replication_offset: n,
            ..m
        }),
        apply_line(m, setting_line("connected_slaves"@, signed_decimal(n as int))) == (InfoModel {
            connected_slaves: n,
            ..m
        }),
{
    lemma_setting_connected_clients(m, n);
    lemma_setting_blocked_clients(m, n);
    lemma_setting_used_memory(m, n);
    lemma_setting_used_memory_rss(m, n);
    lemma_setting_total_commands_processed(m, n);
    lemma_setting_keyspace_hits(m, n);
    lemma_setting_keyspace_misses(m, n);
    lemma_setting_evicted_keys(m, n);
    lemma_setting_replication_offset(m, n);
    lemma_setting_connected_slaves(m, n);
}

/// A text of one line `<key>:<n>`, for a kept integer key and any `i64`
/// `n`, reads as `n` in that key's field and zero or empty everywhere else.
pub proof fn lemma_parse_info_setting(n: i64)
    ensures
        parse_info_spec(setting_line("connected_clients"@, signed_decimal(n as int))) == (InfoModel {
            connected_clients: n,
            ..empty_info()
        }),
        parse_info_spec(setting_line("blocked_clients"@, signed_decimal(n as int))) == (InfoModel {
            blocked_clients: n,
            ..empty_info()
        }),
        parse_info_spec(setting_line("used_memory"@, signed_decimal(n as int))) == (InfoModel {
            used_memory: n,
            ..empty_info()
        }),
        parse_info_spec(setting_line("used_memory_rss"@, signed_decimal(n as int))) == (InfoModel {
            used_memory_rss: n,
            ..empty_info()
        }),
        parse_info_spec(setting_line("total_commands_processed"@, signed_decimal(n as int))) == (InfoModel {
            total_commands_processed: n,
            ..empty_info()
        }),
        parse_info_spec(setting_line("keyspace_hits"@, signed_decimal(n as int))) == (InfoModel {
            keyspace_hits: n,
            ..empty_info()
        }),
        parse_info_spec(setting_line("keyspace_misses"@, signed_decimal(n as int))) == (InfoModel {
            keyspace_misses: n,
            ..empty_info()
        }),
        parse_info_spec(setting_line("evicted_keys"@, signed_decimal(n as int))) == (InfoModel {
            evicted_keys: n,
            ..empty_info()
        }),
        parse_info_spec(setting_line("master_repl_offset"@, signed_decimal(n as int))) == (InfoModel {
            replication_offset: n,
            ..empty_info()
        }),
        parse_info_spec(setting_line("connected_slaves"@, signed_decimal(n as int))) == (InfoModel {
            connected_slaves: n,
            ..empty_info()
        }),
{
    lemma_setting_connected_clients(empty_info(), n);
    lemma_parse_one_line(setting_line("connected_clients"@, signed_decimal(n as int)));
    lemma_setting_blocked_clients(empty_info(), n);
    lemma_parse_one_line(setting_line("blocked_clients"@, signed_decimal(n as int)));
    lemma_setting_used_memory(empty_info(), n);
    lemma_parse_one_line(setting_line("used_memory"@, signed_decimal(n as int)));
    lemma_setting_used_memory_rss(empty_info(), n);
    lemma_parse_one_line(setting_line("used_memory_rss"@, signed_decimal(n as int)));
    lemma_setting_total_commands_processed(empty_info(), n);
    lemma_parse_one_line(setting_line("total_commands_processed"@, signed_decimal(n as int)));
    lemma_setting_keyspace_hits(empty_info(), n);
    lemma_parse_one_line(setting_line("keyspace_hits"@, signed_decimal(n as int)));
    lemma_setting_keyspace_misses(empty_info(), n);
    lemma_parse_one_line(setting_line("keyspace_misses"@, signed_decimal(n as int)));
    lemma_setting_evicted_keys(empty_info(), n);
    lemma_parse_one_line(setting_line("evicted_keys"@, signed_decimal(n as int)));
    lemma_setting_replication_offset(empty_info(), n);
    lemma_parse_one_line(setting_line("master_repl_offset"@, signed_decimal(n as int)));
    lemma_setting_connected_slaves(empty_info(), n);
    lemma_parse_one_line(setting_line("connected_slaves"@, signed_decimal(n as int)));
}

/// The line `mem_fragmentation_ratio:<text>` keeps `text` as the ratio's
/// text, whatever it is (a plain value: not empty, no line break, no
/// whitespace at either end), and changes nothing else.
pub proof fn lemma_fragmentation_text(m: InfoModel, text: Seq<char>)
    requires
        is_plain_value(text),
    ensures
        apply_line(m, setting_line("mem_fragmentation_ratio"@, text)) == (InfoModel {
            mem_fragmentation_ratio_text: text,
            ..m
        }),
{
    reveal_strlit("connected_clients");
    reveal_strlit("blocked_clients");
    reveal_strlit("used_memory");
    reveal_strlit("used_memory_rss");
    reveal_strlit("total_commands_processed");
    reveal_strlit("keyspace_hits");
    reveal_strlit("keyspace_misses");
    reveal_strlit("evicted_keys");
    reveal_strlit("master_repl_offset");
    reveal_strlit("connected_slaves");
    reveal_strlit("mem_fragmentation_ratio");
    let key = "mem_fragmentation_ratio"@;
    assert(forall|j: int| 0 <= j < key.len() ==> is_key_char(#[trigger] key[j]));
    lemma_setting_line(m, key, text);
}

} // verus!
