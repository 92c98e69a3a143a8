//! What one collection round reads off the `serverStatus` reply of a
//! MongoDB server.
//!
//! The reply is a document of sections; a section that is missing leaves
//! its gauges as they were, and within a present section a value that is
//! missing or is not an integer (32- or 64-bit) reads as 0.

use vstd::prelude::*;

use crate::text::str_equals;

verus! {

/// One section (sub-document) of a `serverStatus` reply: each entry's key,
/// with its value when that value is an integer (32- or 64-bit) and `None` when it
/// is of another type.
pub struct StatusSection {
    pub entries: Vec<(String, Option<i64>)>,
}

/// The `wiredTiger` section, of which the `cache` sub-document is read.
pub struct WiredTigerStatus {
    pub cache: Option<StatusSection>,
}

/// The sections of a `serverStatus` reply that the collector reads; `None`
/// where the reply has no such sub-document.
pub struct ServerStatus {
    pub connections: Option<StatusSection>,
    pub opcounters: Option<StatusSection>,
    pub network: Option<StatusSection>,
    pub mem: Option<StatusSection>,
    pub wired_tiger: Option<WiredTigerStatus>,
}

/// The entries of a section, keys taken by their characters.
pub open spec fn entries_model(s: StatusSection) -> Seq<(Seq<char>, Option<i64>)> {
    s.entries@.map_values(|e: (String, Option<i64>)| (e.0@, e.1))
}

/// The integer value of the first
/// entry named `key`, 0 where that entry is not an integer or there is
/// none.
pub open spec fn value_or_zero(entries: Seq<(Seq<char>, Option<i64>)>, key: Seq<char>) -> i64
    decreases entries.len(),
{
    if entries.len() == 0 {
        0
    } else if entries[0].0 == key {
        match entries[0].1 {
            Some(v) => v,
            None => 0,
        }
    } else {
        value_or_zero(entries.drop_first(), key)
    }
}

/// The value of `key` in `section`, 0 where it is absent or not an integer.
pub fn section_value(section: &StatusSection, key: &str) -> (r: i64)
    ensures
        r == value_or_zero(entries_model(*section), key@),
{
    let n: usize = section.entries.len();
    let ghost m = entries_model(*section);
    let mut i: usize = 0;
    assert(m.skip(0) =~= m);
    while i < n
        invariant
            n == section.entries@.len(),
            m == entries_model(*section),
            i <= n,
            value_or_zero(m, key@) == value_or_zero(m.skip(i as int), key@),
        decreases n - i,
    {
        assert(m.skip(i as int)[0] == m[i as int]);
        assert(m.skip(i as int).drop_first() =~= m.skip(i + 1));
        if str_equals(section.entries[i].0.as_str(), key) {
            return match section.entries[i].1 {
                Some(v) => v,
                None => 0,
            };
        }
        i = i + 1;
    }
    assert(m.skip(n as int) =~= Seq::<(Seq<char>, Option<i64>)>::empty());
    0
}

/// The operation counters read, in this order, from `opcounters`.
pub open spec fn opcounter_ops() -> Seq<Seq<char>> {
    seq!["insert"@, "query"@, "update"@, "delete"@, "getmore"@, "command"@]
}

/// Bytes in a mebibyte: `serverStatus` reports memory in MiB.
pub open spec fn mib() -> int {
    1048576
}

/// Memory figures in MiB that can be converted to bytes without leaving
/// the range of `i64`.
pub open spec fn memory_in_range(status: ServerStatus) -> bool {
    match status.mem {
        Some(mem) => {
            let e = entries_model(mem);
            &&& i64::MIN <= value_or_zero(e, "resident"@) * mib() <= i64::MAX
            &&& i64::MIN <= value_or_zero(e, "virtual"@) * mib() <= i64::MAX
        },
        None => true,
    }
}

/// The gauge values of one collection round; `None` for a group whose
/// section is missing, whose gauges are then left unchanged.
pub struct MongoReadings {
    /// `current`, `available`, `totalCreated` connections.
    pub connections: Option<(i64, i64, i64)>,
    /// `(op, count)` for each operation of `opcounter_ops`, in order.
    pub opcounters: Option<Vec<(&'static str, i64)>>,
    /// `bytesIn`, `bytesOut`, `numRequests`.
    pub network: Option<(i64, i64, i64)>,
    /// Resident and virtual memory, in bytes.
    pub memory_bytes: Option<(i64, i64)>,
    /// WiredTiger cache bytes in use, maximum, and dirty.
    pub wt_cache: Option<(i64, i64, i64)>,
}

/// The three values of `keys` in `section`.
pub open spec fn triple(section: StatusSection, k0: Seq<char>, k1: Seq<char>, k2: Seq<char>) -> (
    i64,
    i64,
    i64,
) {
    let e = entries_model(section);
    (value_or_zero(e, k0), value_or_zero(e, k1), value_or_zero(e, k2))
}

/// What [`mongo_readings`] gives for `status`, group by group.
pub open spec fn readings_match(status: ServerStatus, r: MongoReadings) -> bool {
    &&& match status.connections {
        Some(s) => r.connections == Some(
            triple(s, "current"@, "available"@, "totalCreated"@),
        ),
        None => r.connections is None,
    }
    &&& match status.opcounters {
        Some(s) => r.opcounters matches Some(ops) && ops@.len() == 6 && forall|i: int|
            0 <= i < 6 ==> (#[trigger] ops@[i]).0@ == opcounter_ops()[i] && ops@[i].1
                == value_or_zero(entries_model(s), opcounter_ops()[i]),
        None => r.opcounters is None,
    }
    &&& match status.network {
        Some(s) => r.network == Some(triple(s, "bytesIn"@, "bytesOut"@, "numRequests"@)),
        None => r.network is None,
    }
    &&& match status.mem {
        Some(s) => r.memory_bytes == Some(
            (
                (value_or_zero(entries_model(s), "resident"@) * mib()) as i64,
                (value_or_zero(entries_model(s), "virtual"@) * mib()) as i64,
            ),
        ),
        None => r.memory_bytes is None,
    }
    &&& match status.wired_tiger {
        Some(wt) => match wt.cache {
            Some(c) => r.wt_cache == Some(
                triple(
                    c,
                    "bytes currently in the cache"@,
                    "maximum bytes configured"@,
                    "tracked dirty bytes in the cache"@,
                ),
            ),
            None => r.wt_cache is None,
        },
        None => r.wt_cache is None,
    }
}

/// Reads three values of a section.
fn read_triple(section: &StatusSection, k0: &str, k1: &str, k2: &str) -> (r: (i64, i64, i64))
    ensures
        r == triple(*section, k0@, k1@, k2@),
{
    (section_value(section, k0), section_value(section, k1), section_value(section, k2))
}

/// Reads the six operation counters.
fn read_opcounters(section: &StatusSection) -> (ops: Vec<(&'static str, i64)>)
    ensures
        ops@.len() == 6,
        forall|i: int|
            0 <= i < 6 ==> (#[trigger] ops@[i]).0@ == opcounter_ops()[i] && ops@[i].1
                == value_or_zero(entries_model(*section), opcounter_ops()[i]),
{
    let mut ops: Vec<(&'static str, i64)> = Vec::new();
    ops.push(("insert", section_value(section, "insert")));
    ops.push(("query", section_value(section, "query")));
    ops.push(("update", section_value(section, "update")));
    ops.push(("delete", section_value(section, "delete")));
    ops.push(("getmore", section_value(section, "getmore")));
    ops.push(("command", section_value(section, "command")));
    ops
}

/// The gauge values that one collection round sets from `status`.
pub fn mongo_readings(status: &ServerStatus) -> (r: MongoReadings)
    requires
        memory_in_range(*status),
    ensures
        readings_match(*status, r),
        status.opcounters matches Some(s) ==> r.opcounters matches Some(ops) && forall|i: int|
            0 <= i < ops@.len() ==> (#[trigger] ops@[i]).1 == value_or_zero(
                entries_model(s),
                ops@[i].0@,
            ),
{
    let connections = match &status.connections {
        Some(s) => Some(read_triple(s, "current", "available", "totalCreated")),
        None => None,
    };
    let opcounters = match &status.opcounters {
        Some(s) => Some(read_opcounters(s)),
        None => None,
    };
    let network = match &status.network {
        Some(s) => Some(read_triple(s, "bytesIn", "bytesOut", "numRequests")),
        None => None,
    };
    let memory_bytes = match &status.mem {
        Some(s) => {
            let resident: i64 = section_value(s, "resident");
            let virt: i64 = section_value(s, "virtual");
            Some((resident * 1024 * 1024, virt * 1024 * 1024))
        },
        None => None,
    };
    let wt_cache = match &status.wired_tiger {
        Some(wt) => match &wt.cache {
            Some(c) => Some(
                read_triple(
                    c,
                    "bytes currently in the cache",
                    "maximum bytes configured",
                    "tracked dirty bytes in the cache",
                ),
            ),
            None => None,
        },
        None => None,
    };
    let r = MongoReadings { connections, opcounters, network, memory_bytes, wt_cache };
    proof {
        if status.opcounters is Some {
            lemma_opcounters_by_label(*status, r);
        }
    }
    r
}

/// Each operation counter is read under its own label: the count paired
/// with a label is the entry of `opcounters` of that very name, and the
/// labels are `insert`, `query`, `update`, `delete`, `getmore` and
/// `command`, in that order.
pub proof fn lemma_opcounters_by_label(status: ServerStatus, r: MongoReadings)
    requires
        readings_match(status, r),
        status.opcounters is Some,
    ensures
        r.opcounters matches Some(ops) && {
            let e = entries_model(status.opcounters.unwrap());
            &&& ops@.len() == 6
            &&& forall|i: int|
                0 <= i < 6 ==> (#[trigger] ops@[i]).1 == value_or_zero(e, ops@[i].0@)
            &&& ops@[0].0@ == "insert"@ && ops@[0].1 == value_or_zero(e, "insert"@)
            &&& ops@[1].0@ == "query"@ && ops@[1].1 == value_or_zero(e, "query"@)
            &&& ops@[2].0@ == "update"@ && ops@[2].1 == value_or_zero(e, "update"@)
            &&& ops@[3].0@ == "delete"@ && ops@[3].1 == value_or_zero(e, "delete"@)
            &&& ops@[4].0@ == "getmore"@ && ops@[4].1 == value_or_zero(e, "getmore"@)
            &&& ops@[5].0@ == "command"@ && ops@[5].1 == value_or_zero(e, "command"@)
        },
{
    reveal_strlit("insert");
    reveal_strlit("query");
    reveal_strlit("update");
    reveal_strlit("delete");
    reveal_strlit("getmore");
    reveal_strlit("command");
    let ops = r.opcounters.unwrap();
    assert(ops@[0].0@ == opcounter_ops()[0]);
    assert(ops@[1].0@ == opcounter_ops()[1]);
    assert(ops@[2].0@ == opcounter_ops()[2]);
    assert(ops@[3].0@ == opcounter_ops()[3]);
    assert(ops@[4].0@ == opcounter_ops()[4]);
    assert(ops@[5].0@ == opcounter_ops()[5]);
}

/// Each reading is the value of the key it stands for: connections
/// `current`, `available`, `totalCreated`; network `bytesIn`, `bytesOut`,
/// `numRequests`; memory `resident` and `virtual` in MiB times 1048576; the
/// WiredTiger cache figures in use, maximum and dirty.
pub proof fn lemma_readings_by_key(status: ServerStatus, r: MongoReadings)
    requires
        readings_match(status, r),
        memory_in_range(status),
    ensures
        status.connections matches Some(s) ==> r.connections == Some(
            (
                value_or_zero(entries_model(s), "current"@),
                value_or_zero(entries_model(s), "available"@),
                value_or_zero(entries_model(s), "totalCreated"@),
            ),
        ),
        status.network matches Some(s) ==> r.network == Some(
            (
                value_or_zero(entries_model(s), "bytesIn"@),
                value_or_zero(entries_model(s), "bytesOut"@),
                value_or_zero(entries_model(s), "numRequests"@),
            ),
        ),
        status.mem matches Some(s) ==> r.memory_bytes matches Some(m) && m.0 == value_or_zero(
            entries_model(s),
            "resident"@,
        ) * 1048576 && m.1 == value_or_zero(entries_model(s), "virtual"@) * 1048576,
        status.wired_tiger matches Some(wt) ==> (wt.cache matches Some(c) ==> r.wt_cache == Some(
            (
                value_or_zero(entries_model(c), "bytes currently in the cache"@),
                value_or_zero(entries_model(c), "maximum bytes configured"@),
                value_or_zero(entries_model(c), "tracked dirty bytes in the cache"@),
            ),
        )),
{
}

} // verus!
