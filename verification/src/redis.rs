//! What one collection round reads off a parsed `INFO ALL` reply for the
//! per-database gauges.

use vstd::prelude::*;

use crate::info_parser::{apply_field, apply_line, counts_after_fields, int_or_zero, keyspace_entry, InfoModel, RedisInfo};
use crate::number::{
    decimal, is_digit, lemma_decimal_digits, lemma_parse_i64_of_decimal,
    lemma_parse_u32_of_decimal, parse_u32_spec, push_decimal,
};
use crate::text::{
    chars_of, lemma_split_join, lemma_split_without_sep, lemma_trim_unchanged, split,
    string_from_chars,
};

verus! {

/// The label of database `db` on the keyspace gauges: `db` and its index.
pub open spec fn keyspace_label_spec(db: u32) -> Seq<char> {
    "db"@ + decimal(db as nat)
}

/// `format!("db{db}")`.
pub fn keyspace_label(db: u32) -> (s: String)
    ensures
        s@ == keyspace_label_spec(db),
{
    let mut v = chars_of("db");
    push_decimal(&mut v, db as u64);
    string_from_chars(v.as_slice())
}

/// The label reads back as the database: `db` followed by text that
/// parses as the database's index.
pub proof fn lemma_keyspace_label_reads_back(db: u32)
    ensures
        keyspace_label_spec(db).take(2) == "db"@,
        parse_u32_spec(keyspace_label_spec(db).skip(2)) == Some(db),
{
    reveal_strlit("db");
    assert(keyspace_label_spec(db).take(2) =~= "db"@);
    assert(keyspace_label_spec(db).skip(2) =~= decimal(db as nat));
    lemma_parse_u32_of_decimal(db);
}

/// One keyspace entry as the gauges see it: its label, keys and expiring
/// keys.
pub open spec fn keyspace_sample_spec(entry: (u32, i64, i64)) -> (Seq<char>, i64, i64) {
    (keyspace_label_spec(entry.0), entry.1, entry.2)
}

/// The `(label, keys, expires)` triples that the keyspace gauges are set
/// to, one per keyspace entry of `info`, in order (a later entry for the
/// same database overrides an earlier one when they are applied in turn).
pub fn keyspace_samples(info: &RedisInfo) -> (r: Vec<(String, i64, i64)>)
    ensures
        r@.len() == info.keyspace@.len(),
        forall|i: int|
            0 <= i < r@.len() ==> (#[trigger] r@[i]).0@ == keyspace_label_spec(info.keyspace@[i].0)
                && r@[i].1 == info.keyspace@[i].1 && r@[i].2 == info.keyspace@[i].2,
{
    let mut r: Vec<(String, i64, i64)> = Vec::new();
    let n: usize = info.keyspace.len();
    for i in 0..n
        invariant
            n == info.keyspace@.len(),
            r@.len() == i,
            forall|j: int|
                0 <= j < i ==> (#[trigger] r@[j]).0@ == keyspace_label_spec(info.keyspace@[j].0)
                    && r@[j].1 == info.keyspace@[j].1 && r@[j].2 == info.keyspace@[j].2,
    {
        let (db, keys, expires) = info.keyspace[i];
        r.push((keyspace_label(db), keys, expires));
    }
    r
}

/// The fields of a keyspace line: `keys=<keys>,expires=<expires>,avg_ttl=<ttl>`.
pub open spec fn keyspace_fields(keys: u64, expires: u64, ttl: u64) -> Seq<char> {
    ("keys="@ + decimal(keys as nat)) + seq![','] + ("expires="@ + decimal(expires as nat)) + seq![
        ',',
    ] + ("avg_ttl="@ + decimal(ttl as nat))
}

/// A keyspace line as Redis writes it, for database `db` with `keys` keys
/// of which `expires` expire, and average TTL `ttl`: the database's label,
/// a colon, then the fields.
pub open spec fn keyspace_line(db: u32, keys: u64, expires: u64, ttl: u64) -> Seq<char> {
    keyspace_label_spec(db) + seq![':'] + keyspace_fields(keys, expires, ttl)
}

/// A decimal numeral holds no separator of the keyspace syntax.
proof fn lemma_decimal_no_char(n: nat, c: char)
    requires
        !is_digit(c),
    ensures
        forall|i: int| 0 <= i < decimal(n).len() ==> decimal(n)[i] != c,
{
    lemma_decimal_digits(n);
    assert forall|i: int| 0 <= i < decimal(n).len() implies decimal(n)[i] != c by {
        assert(is_digit(decimal(n)[i]));
    }
}

/// A name followed by a numeral holds no comma when the name holds none.
proof fn lemma_field_no_comma(name: Seq<char>, n: nat)
    requires
        forall|i: int| 0 <= i < name.len() ==> name[i] != ',',
    ensures
        forall|i: int| 0 <= i < (name + decimal(n)).len() ==> (name + decimal(n))[i] != ',',
{
    lemma_decimal_no_char(n, ',');
    assert forall|i: int| 0 <= i < (name + decimal(n)).len() implies (name + decimal(n))[i]
        != ',' by {
        if i >= name.len() {
            assert((name + decimal(n))[i] == decimal(n)[i - name.len()]);
        }
    }
}

/// The fields of a keyspace line split into its three fields.
proof fn lemma_split_fields(keys: u64, expires: u64, ttl: u64)
    ensures
        split(keyspace_fields(keys, expires, ttl), ',') == seq![
            "keys="@ + decimal(keys as nat),
            "expires="@ + decimal(expires as nat),
            "avg_ttl="@ + decimal(ttl as nat),
        ],
{
    reveal_strlit("keys=");
    reveal_strlit("expires=");
    reveal_strlit("avg_ttl=");
    let f1 = "keys="@ + decimal(keys as nat);
    let f2 = "expires="@ + decimal(expires as nat);
    let f3 = "avg_ttl="@ + decimal(ttl as nat);
    lemma_field_no_comma("keys="@, keys as nat);
    lemma_field_no_comma("expires="@, expires as nat);
    lemma_field_no_comma("avg_ttl="@, ttl as nat);
    lemma_split_without_sep(f1, ',');
    lemma_split_without_sep(f2, ',');
    lemma_split_without_sep(f3, ',');
    lemma_split_join(f1, f2, ',');
    lemma_split_join(f1 + seq![','] + f2, f3, ',');
    assert(split(keyspace_fields(keys, expires, ttl), ',') =~= seq![f1, f2, f3]);
}

/// The three fields read as `keys` and `expires`.
proof fn lemma_count_fields(keys: i64, expires: i64, ttl: u64)
    requires
        keys >= 0,
        expires >= 0,
    ensures
        counts_after_fields(
            (0, 0),
            seq![
                "keys="@ + decimal(keys as nat),
                "expires="@ + decimal(expires as nat),
                "avg_ttl="@ + decimal(ttl as nat),
            ],
        ) == (keys, expires),
{
    reveal_strlit("keys=");
    reveal_strlit("expires=");
    reveal_strlit("avg_ttl=");
    let f1 = "keys="@ + decimal(keys as nat);
    let f2 = "expires="@ + decimal(expires as nat);
    let f3 = "avg_ttl="@ + decimal(ttl as nat);
    let pieces = seq![f1, f2, f3];
    assert(f1.take(5) =~= "keys="@);
    assert(f1.skip(5) =~= decimal(keys as nat));
    lemma_parse_i64_of_decimal(keys);
    assert(f2[0] != "keys="@[0]);
    assert(f2.take(8) =~= "expires="@);
    assert(f2.skip(8) =~= decimal(expires as nat));
    lemma_parse_i64_of_decimal(expires);
    assert(f3[0] != "keys="@[0]);
    assert(f3[0] != "expires="@[0]);
    assert(pieces.drop_first() =~= seq![f2, f3]);
    assert(pieces.drop_first().drop_first() =~= seq![f3]);
    assert(seq![f3].drop_first() =~= Seq::<Seq<char>>::empty());
    assert(int_or_zero(decimal(keys as nat)) == keys);
    assert(int_or_zero(decimal(expires as nat)) == expires);
    assert(apply_field((0, 0), f1) == (keys, 0i64));
    assert(apply_field((keys, 0i64), f2) == (keys, expires));
    assert(apply_field((keys, expires), f3) == (keys, expires));
    assert(counts_after_fields((keys, expires), Seq::<Seq<char>>::empty()) == (keys, expires));
    assert(seq![f3][0] == f3);
    assert(counts_after_fields((keys, expires), seq![f3]) == (keys, expires));
    assert(seq![f2, f3][0] == f2);
    assert(counts_after_fields((keys, 0i64), seq![f2, f3]) == (keys, expires));
}

/// A well-formed keyspace line is read as the entry `(db, keys, expires)`.
proof fn lemma_keyspace_entry_of_line(db: u32, keys: i64, expires: i64, ttl: u64)
    requires
        keys >= 0,
        expires >= 0,
    ensures
        keyspace_entry(keyspace_line(db, keys as u64, expires as u64, ttl)) == Some(
            (db, keys, expires),
        ),
{
    reveal_strlit("db");
    let dd = decimal(db as nat);
    let fields = keyspace_fields(keys as u64, expires as u64, ttl);
    let line = keyspace_line(db, keys as u64, expires as u64, ttl);
    let rest = dd + seq![':'] + fields;
    assert(line.take(2) =~= "db"@);
    assert(line.skip(2) =~= rest);
    lemma_decimal_no_char(db as nat, ':');
    assert forall|j: int| 0 <= j < dd.len() implies rest[j] != ':' by {
        assert(rest[j] == dd[j]);
    }
    crate::text::lemma_index_of(rest, ':', dd.len() as int);
    assert(rest.take(dd.len() as int) =~= dd);
    assert(rest.skip(dd.len() as int + 1) =~= fields);
    lemma_parse_u32_of_decimal(db);
    lemma_split_fields(keys as u64, expires as u64, ttl);
    lemma_count_fields(keys, expires, ttl);
}

/// Reading a keyspace line gives back the numbers it was written from,
/// and its label is the one the gauges use: a well-formed line
/// `db<db>:keys=<keys>,expires=<expires>,avg_ttl=<ttl>` adds the entry
/// `(db, keys, expires)` and changes nothing else.
pub proof fn lemma_keyspace_line_roundtrip(m: InfoModel, db: u32, keys: i64, expires: i64, ttl: u64)
    requires
        keys >= 0,
        expires >= 0,
    ensures
        apply_line(m, keyspace_line(db, keys as u64, expires as u64, ttl)) == (InfoModel {
            keyspace: m.keyspace.push((db, keys, expires)),
            ..m
        }),
{
    reveal_strlit("db");
    reveal_strlit("avg_ttl=");
    let line = keyspace_line(db, keys as u64, expires as u64, ttl);
    let dt = decimal(ttl as nat);
    lemma_decimal_digits(ttl as nat);
    assert(line[0] == 'd');
    assert(line.last() == dt.last());
    assert(is_digit(dt[dt.len() - 1]));
    lemma_trim_unchanged(line);
    lemma_keyspace_entry_of_line(db, keys, expires, ttl);
}

} // verus!
