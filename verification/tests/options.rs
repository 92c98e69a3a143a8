use std::collections::HashMap;

use dr_metrix::catalog::{postgres_metrics, redis_metrics, POSTGRES_SUBSYSTEM, REDIS_SUBSYSTEM};
use dr_metrix::options::{collector_options, metric_options};

#[test]
fn const_labels_on_every_metric() {
    let defs = postgres_metrics();
    let labels: HashMap<String, String> = [("env".to_string(), "prod".to_string())].into();
    let opts = collector_options(&defs, POSTGRES_SUBSYSTEM, "myapp", &labels);
    assert_eq!(opts.len(), defs.len());
    for (o, d) in opts.iter().zip(defs.iter()) {
        assert_eq!(o.const_labels, labels);
        assert_eq!(o.namespace.as_deref(), Some("myapp"));
        assert_eq!(o.subsystem, "postgres");
        assert_eq!(o.name, d.name);
        assert_eq!(o.help, d.help);
        assert_eq!(o.labels, d.labels);
    }
    assert_eq!(opts[9].name, "table_seq_scan");
    assert_eq!(opts[9].labels, vec!["schema", "table"]);
}

#[test]
fn empty_namespace_and_no_labels() {
    let defs = redis_metrics();
    let o = metric_options(&defs[0], REDIS_SUBSYSTEM, "", &HashMap::new());
    assert_eq!(o.namespace, None);
    assert!(o.const_labels.is_empty());
    assert_eq!(o.name, "pool_connections");
}
