//! What each metric is created with: its definition, the subsystem, the
//! namespace when there is one, and the constant labels that every metric
//! of a collector carries.

use std::collections::HashMap;

use vstd::prelude::*;

use crate::catalog::MetricDef;
use crate::http::metric_namespace;

verus! {

/// Namespace (none when empty), subsystem, name, help text, variable label
/// names and constant labels of one metric.
pub struct MetricOptions {
    pub namespace: Option<String>,
    pub subsystem: &'static str,
    pub name: &'static str,
    pub help: &'static str,
    pub labels: Vec<&'static str>,
    pub const_labels: HashMap<String, String>,
}

/// `o` creates the metric `def` of `subsystem` under `namespace`, with the
/// constant labels `const_labels`.
pub open spec fn options_for(
    o: MetricOptions,
    def: MetricDef,
    subsystem: Seq<char>,
    namespace: Seq<char>,
    const_labels: Map<String, String>,
) -> bool {
    &&& match o.namespace {
        Some(ns) => namespace.len() > 0 && ns@ == namespace,
        None => namespace.len() == 0,
    }
    &&& o.subsystem@ == subsystem
    &&& o.name@ == def.name@
    &&& o.help@ == def.help@
    &&& o.labels@ == def.labels@
    &&& o.const_labels@ == const_labels
}

/// The options of the metric `def` of `subsystem`: the namespace when it is
/// not empty, and the constant labels.
pub fn metric_options(
    def: &MetricDef,
    subsystem: &'static str,
    namespace: &str,
    const_labels: &HashMap<String, String>,
) -> (o: MetricOptions)
    ensures
        options_for(o, *def, subsystem@, namespace@, const_labels@),
        o.const_labels@ == const_labels@,
        o.name@ == def.name@ && o.help@ == def.help@ && o.labels@ == def.labels@,
        o.subsystem@ == subsystem@,
        o.namespace is None <==> namespace@.len() == 0,
        o.namespace matches Some(ns) ==> ns@ == namespace@,
{
    let mut labels: Vec<&'static str> = Vec::new();
    let mut i: usize = 0;
    while i < def.labels.len()
        invariant
            i <= def.labels.len(),
            labels@ == def.labels@.subrange(0, i as int),
        decreases def.labels.len() - i,
    {
        labels.push(def.labels[i]);
        i = i + 1;
    }
    assert(def.labels@.subrange(0, def.labels.len() as int) =~= def.labels@);
    MetricOptions {
        namespace: metric_namespace(namespace),
        subsystem,
        name: def.name,
        help: def.help,
        labels,
        const_labels: const_labels.clone(),
    }
}

/// The options of every metric of `defs`, in order, each with the same
/// subsystem, namespace and constant labels.
pub fn collector_options(
    defs: &Vec<MetricDef>,
    subsystem: &'static str,
    namespace: &str,
    const_labels: &HashMap<String, String>,
) -> (opts: Vec<MetricOptions>)
    ensures
        opts.len() == defs.len(),
        forall|i: int|
            0 <= i < defs.len() ==> options_for(
                #[trigger] opts@[i],
                defs@[i],
                subsystem@,
                namespace@,
                const_labels@,
            ),
        forall|i: int|
            0 <= i < defs.len() ==> (#[trigger] opts@[i]).const_labels@ == const_labels@
                && opts@[i].name@ == defs@[i].name@ && opts@[i].help@ == defs@[i].help@
                && opts@[i].labels@ == defs@[i].labels@,
{
    let mut opts: Vec<MetricOptions> = Vec::new();
    let mut i: usize = 0;
    while i < defs.len()
        invariant
            i <= defs.len(),
            opts.len() == i,
            forall|k: int|
                0 <= k < i ==> options_for(
                    #[trigger] opts@[k],
                    defs@[k],
                    subsystem@,
                    namespace@,
                    const_labels@,
                ),
        decreases defs.len() - i,
    {
        let o = metric_options(&defs[i], subsystem, namespace, const_labels);
        opts.push(o);
        i = i + 1;
    }
    opts
}

} // verus!
