use std::collections::HashSet;

use dr_metrix::catalog::{
    http_metrics, mongo_metrics, postgres_metrics, redis_metrics, MetricDef, HTTP_SUBSYSTEM,
    MONGO_SUBSYSTEM, POSTGRES_SUBSYSTEM, REDIS_SUBSYSTEM,
};

fn full_names(ns: &str, sub: &str, defs: &[MetricDef]) -> Vec<String> {
    defs.iter()
        .map(|d| {
            if ns.is_empty() {
                format!("{}_{}", sub, d.name)
            } else {
                format!("{}_{}_{}", ns, sub, d.name)
            }
        })
        .collect()
}

#[test]
fn catalogs_have_expected_sizes_and_order() {
    assert_eq!(postgres_metrics().len(), 16);
    assert_eq!(redis_metrics().len(), 15);
    assert_eq!(mongo_metrics().len(), 13);
    assert_eq!(http_metrics().len(), 4);
    let pg = postgres_metrics();
    assert_eq!(pg[0].name, "pool_active");
    assert_eq!(pg[9].labels, vec!["schema", "table"]);
    let http = http_metrics();
    assert_eq!(http[0].name, "requests_total");
    assert_eq!(http[0].labels, vec!["method", "path", "status"]);
    assert_eq!(http[3].labels, vec!["method", "path"]);
    let redis = redis_metrics();
    assert_eq!(redis[5].name, "mem_fragmentation_ratio");
    assert_eq!(redis[10].labels, vec!["db"]);
    let mongo = mongo_metrics();
    assert_eq!(mongo[3].name, "opcounters_total");
    assert_eq!(mongo[3].labels, vec!["op"]);
}

#[test]
fn full_names_never_clash() {
    for ns in ["", "myapp", "a_b"] {
        let mut all = Vec::new();
        all.extend(full_names(ns, HTTP_SUBSYSTEM, &http_metrics()));
        all.extend(full_names(ns, POSTGRES_SUBSYSTEM, &postgres_metrics()));
        all.extend(full_names(ns, REDIS_SUBSYSTEM, &redis_metrics()));
        all.extend(full_names(ns, MONGO_SUBSYSTEM, &mongo_metrics()));
        let set: HashSet<&String> = all.iter().collect();
        assert_eq!(set.len(), all.len());
    }
    assert!(full_names("myapp", REDIS_SUBSYSTEM, &redis_metrics())
        .contains(&"myapp_redis_connected_clients".to_string()));
}

#[test]
fn all_metrics_register_in_one_registry() {
    let registry = prometheus::Registry::new();
    for (sub, defs) in [
        (HTTP_SUBSYSTEM, http_metrics()),
        (POSTGRES_SUBSYSTEM, postgres_metrics()),
        (REDIS_SUBSYSTEM, redis_metrics()),
        (MONGO_SUBSYSTEM, mongo_metrics()),
    ] {
        for d in defs {
            let opts = prometheus::Opts::new(d.name, d.help).subsystem(sub).namespace("myapp");
            if d.labels.is_empty() {
                let g = prometheus::IntGauge::with_opts(opts).unwrap();
                registry.register(Box::new(g)).unwrap();
            } else {
                let g = prometheus::IntGaugeVec::new(opts, &d.labels).unwrap();
                registry.register(Box::new(g)).unwrap();
            }
        }
    }
}
