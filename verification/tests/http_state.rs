use dr_metrix::http::{
    health_body, metric_namespace, request_finished, request_started, route_label, status_label,
    RequestOutcome, METRICS_CONTENT_TYPE,
};
use dr_metrix::state::{CollectorBook, PrometheusMetricsBuilder};

#[test]
fn health_body_reports_count() {
    assert_eq!(health_body(0), "{\"status\":\"ok\",\"collectors\":0}");
    assert_eq!(health_body(3), format!("{{\"status\":\"ok\",\"collectors\":{}}}", 3));
}

#[test]
fn request_labels() {
    assert_eq!(route_label(Some("/api/users/:id"), "/api/users/7"), "/api/users/:id");
    assert_eq!(route_label(None, "/api/users/7"), "/api/users/7");
    assert_eq!(status_label(Some(200)), "200");
    assert_eq!(status_label(Some(404)), "404");
    assert_eq!(status_label(None), "500");
    assert_eq!(METRICS_CONTENT_TYPE, "text/plain; version=0.0.4; charset=utf-8");
}

#[test]
fn namespace_rule() {
    assert_eq!(metric_namespace(""), None);
    assert_eq!(metric_namespace("myapp"), Some("myapp".to_string()));
}

#[test]
fn builder_settings() {
    let b = PrometheusMetricsBuilder::new("myapp");
    assert_eq!(b.namespace(), "myapp");
    assert!(!b.process_collector());
    let b = b.with_process_collector().with_process_collector();
    assert!(b.process_collector());
    assert_eq!(b.namespace(), "myapp");
}

#[test]
fn collector_book() {
    let mut book: CollectorBook<u8> = CollectorBook::new();
    assert_eq!(book.collector_count(), 0);
    book.record("postgres", 1);
    book.record("redis", 2);
    assert_eq!(book.collector_count(), 2);
    let stopped = book.drain();
    assert_eq!(stopped, vec![("postgres", 1), ("redis", 2)]);
    assert_eq!(book.collector_count(), 0);
    assert!(book.drain().is_empty());
    book.record("mongo", 3);
    assert_eq!(book.collector_count(), 1);
}

#[test]
fn request_accounting() {
    let start = request_started();
    assert_eq!(start, 1);
    let ok = request_finished(RequestOutcome::Answered(201));
    assert_eq!((ok.in_flight_delta, ok.status.as_str(), ok.observe_size), (-1, "201", true));
    let failed = request_finished(RequestOutcome::Failed);
    assert_eq!((failed.in_flight_delta, failed.status.as_str(), failed.observe_size), (-1, "500", false));
    let mut in_flight: i64 = 7;
    for _ in 0..3 {
        in_flight += request_started();
    }
    in_flight += ok.in_flight_delta + failed.in_flight_delta;
    in_flight += request_finished(RequestOutcome::Answered(404)).in_flight_delta;
    assert_eq!(in_flight, 7);
}
