//! The bookkeeping of the shared Prometheus state: its builder, and the
//! record of the collectors that run in the background.

use vstd::prelude::*;

verus! {

/// Settings gathered before the shared Prometheus state is built: the
/// namespace of the HTTP metrics and whether the process collector is
/// registered.
pub struct PrometheusMetricsBuilder {
    namespace: String,
    process_collector: bool,
}

impl PrometheusMetricsBuilder {
    /// The namespace prefix.
    pub closed spec fn namespace_spec(&self) -> Seq<char> {
        self.namespace@
    }

    /// Whether the process collector is to be registered.
    pub closed spec fn process_collector_spec(&self) -> bool {
        self.process_collector
    }

    /// Starts with `namespace` and without the process collector.
    pub fn new(namespace: &str) -> (b: Self)
        ensures
            b.namespace_spec() == namespace@,
            !b.process_collector_spec(),
    {
        PrometheusMetricsBuilder { namespace: namespace.to_owned(), process_collector: false }
    }

    /// Register the default Prometheus **process collector** which exposes:
    /// `process_cpu_seconds_total`, `process_open_fds`,
    /// `process_max_fds`, `process_virtual_memory_bytes`,
    /// `process_virtual_memory_max_bytes`, `process_resident_memory_bytes`,
    /// `process_start_time_seconds`, `process_threads`.
    pub fn with_process_collector(self) -> (b: Self)
        ensures
            b.process_collector_spec(),
            b.namespace_spec() == self.namespace_spec(),
    {
        let mut b = self;
        b.process_collector = true;
        b
    }

    /// The namespace prefix.
    pub fn namespace(&self) -> (r: &str)
        ensures
            r@ == self.namespace_spec(),
    {
        self.namespace.as_str()
    }

    /// Whether the process collector is to be registered.
    pub fn process_collector(&self) -> (r: bool)
        ensures
            r == self.process_collector_spec(),
    {
        self.process_collector
    }
}

/// The collectors that run in the background: each one's name and task
/// handle, in the order they were added.
pub struct CollectorBook<H> {
    entries: Vec<(&'static str, H)>,
}

impl<H> CollectorBook<H> {
    /// The running collectors, in the order they were added.
    pub closed spec fn running(&self) -> Seq<(&'static str, H)> {
        self.entries@
    }

    /// No collector yet.
    pub fn new() -> (b: Self)
        ensures
            b.running() == Seq::<(&'static str, H)>::empty(),
    {
        CollectorBook { entries: Vec::new() }
    }

    /// Records a collector that was registered and started.
    pub fn record(&mut self, name: &'static str, handle: H)
        ensures
            final(self).running() == old(self).running().push((name, handle)),
    {
        self.entries.push((name, handle));
    }

    /// Number of active collectors: those added since the last shutdown.
    pub fn collector_count(&self) -> (n: usize)
        ensures
            n == self.running().len(),
    {
        self.entries.len()
    }

    /// Hands out every running collector, in the order they were added, to
    /// be stopped; none is left running, so the count drops to 0.
    pub fn drain(&mut self) -> (stopped: Vec<(&'static str, H)>)
        ensures
            stopped@ == old(self).running(),
            final(self).running() == Seq::<(&'static str, H)>::empty(),
    {
        let mut out: Vec<(&'static str, H)> = Vec::new();
        std::mem::swap(&mut out, &mut self.entries);
        out
    }
}

/// One operation on the collector book: recording a collector that was
/// started, or draining the book at shutdown.
pub enum BookOp<H> {
    Record(&'static str, H),
    Drain,
}

/// The running collectors after `ops`, starting from `running`: a record
/// appends its collector, a drain empties the book.
pub open spec fn running_after<H>(
    running: Seq<(&'static str, H)>,
    ops: Seq<BookOp<H>>,
) -> Seq<(&'static str, H)>
    decreases ops.len(),
{
    if ops.len() == 0 {
        running
    } else {
        let next = match ops[0] {
            BookOp::Record(name, handle) => running.push((name, handle)),
            BookOp::Drain => Seq::empty(),
        };
        running_after(next, ops.drop_first())
    }
}

/// `ops` holds a drain.
pub open spec fn has_drain<H>(ops: Seq<BookOp<H>>) -> bool {
    exists|i: int| 0 <= i < ops.len() && ops[i] is Drain
}

/// The number of records in `ops` after its last drain (all of them when
/// there is none).
pub open spec fn records_since_drain<H>(ops: Seq<BookOp<H>>) -> nat
    decreases ops.len(),
{
    if ops.len() == 0 {
        0
    } else {
        match ops.last() {
            BookOp::Record(_, _) => records_since_drain(ops.drop_last()) + 1,
            BookOp::Drain => 0,
        }
    }
}

/// One more operation is one more step: a record appends its collector, as
/// [`CollectorBook::record`] does, and a drain empties the book, as
/// [`CollectorBook::drain`] does.
pub proof fn lemma_running_after_push<H>(
    running: Seq<(&'static str, H)>,
    ops: Seq<BookOp<H>>,
    op: BookOp<H>,
)
    ensures
        running_after(running, ops.push(op)) == match op {
            BookOp::Record(name, handle) => running_after(running, ops).push((name, handle)),
            BookOp::Drain => Seq::<(&'static str, H)>::empty(),
        },
    decreases ops.len(),
{
    if ops.len() == 0 {
        assert(ops.push(op)[0] == op);
        assert(ops.push(op).drop_first() =~= Seq::<BookOp<H>>::empty());
        assert(running_after(running, ops) == running);
        let next = match op {
            BookOp::Record(name, handle) => running.push((name, handle)),
            BookOp::Drain => Seq::<(&'static str, H)>::empty(),
        };
        assert(running_after(next, Seq::<BookOp<H>>::empty()) == next);
        assert(running_after(running, ops.push(op)) == running_after(next, ops.push(op).drop_first()));
    } else {
        let next = match ops[0] {
            BookOp::Record(name, handle) => running.push((name, handle)),
            BookOp::Drain => Seq::empty(),
        };
        assert(ops.push(op)[0] == ops[0]);
        assert(ops.push(op).drop_first() =~= ops.drop_first().push(op));
        lemma_running_after_push(next, ops.drop_first(), op);
        assert(running_after(running, ops) == running_after(next, ops.drop_first()));
        assert(running_after(running, ops.push(op)) == running_after(next, ops.push(op).drop_first()));
    }
}

/// Collector count over any run of records and drains: the number of
/// running collectors is the number recorded since the last drain, added to
/// those that were running before when the run holds no drain.
pub proof fn lemma_collector_count<H>(running: Seq<(&'static str, H)>, ops: Seq<BookOp<H>>)
    ensures
        running_after(running, ops).len() == if has_drain(ops) {
            records_since_drain(ops) as int
        } else {
            (running.len() + records_since_drain(ops)) as int
        },
        running_after(Seq::<(&'static str, H)>::empty(), ops).len() == records_since_drain(ops),
    decreases ops.len(),
{
    if ops.len() > 0 {
        let prefix = ops.drop_last();
        let op = ops.last();
        assert(prefix.push(op) =~= ops);
        lemma_collector_count(running, prefix);
        lemma_collector_count(Seq::<(&'static str, H)>::empty(), prefix);
        lemma_running_after_push(running, prefix, op);
        lemma_running_after_push(Seq::<(&'static str, H)>::empty(), prefix, op);
        match op {
            BookOp::Record(_, _) => {
                assert(has_drain(ops) == has_drain(prefix)) by {
                    if has_drain(prefix) {
                        let i = choose|i: int| 0 <= i < prefix.len() && prefix[i] is Drain;
                        assert(ops[i] == prefix[i]);
                    }
                    if has_drain(ops) {
                        let i = choose|i: int| 0 <= i < ops.len() && ops[i] is Drain;
                        assert(i < prefix.len());
                        assert(prefix[i] == ops[i]);
                    }
                }
            },
            BookOp::Drain => {
                assert(ops[ops.len() - 1] is Drain);
            },
        }
    } else {
        assert(!has_drain(ops));
    }
}

} // verus!
