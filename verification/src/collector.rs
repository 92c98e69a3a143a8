//! Configuration shared by every collector.

use std::collections::HashMap;
use std::time::Duration;

use vstd::prelude::*;

verus! {

/// The `Duration` that `Duration::from_secs(secs)` gives.
pub uninterp spec fn duration_from_secs(secs: u64) -> Duration;

/// `Duration::from_secs`: a duration of `secs` whole seconds (std's
/// constructor; it cannot fail).
#[verifier::external_body]
fn whole_seconds(n: u64) -> (d: Duration)
    ensures
        d == duration_from_secs(n),
{
    Duration::from_secs(n)
}

/// Namespace, collection interval and constant labels of a collector.
pub struct CollectorConfig {
    pub namespace: String,
    pub collect_interval: Duration,
    pub const_labels: HashMap<String, String>,
}

impl Default for CollectorConfig {
    /// No namespace, a 15 s interval, no constant labels.
    fn default() -> (c: Self)
        ensures
            c.namespace@ == Seq::<char>::empty(),
            c.collect_interval == duration_from_secs(15),
            c.const_labels@ == Map::<String, String>::empty(),
    {
        CollectorConfig {
            namespace: String::new(),
            collect_interval: whole_seconds(15),
            const_labels: HashMap::new(),
        }
    }
}

impl Clone for CollectorConfig {
    /// A copy with the same namespace, interval and labels.
    fn clone(&self) -> (c: Self)
        ensures
            c.namespace@ == self.namespace@,
            c.collect_interval == self.collect_interval,
            c.const_labels@ == self.const_labels@,
    {
        CollectorConfig {
            namespace: self.namespace.clone(),
            collect_interval: self.collect_interval,
            const_labels: self.const_labels.clone(),
        }
    }
}

} // verus!
