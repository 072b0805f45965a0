use claude_chat::observability::metrics::{metric_catalog, register_metrics, MetricKind, MetricUnit};

#[test]
fn register_does_not_panic() {
    register_metrics();
}

#[test]
fn registering_twice_does_not_panic() {
    register_metrics();
    register_metrics();
}

#[test]
fn catalog_lists_every_metric_once() {
    let catalog = metric_catalog();
    assert_eq!(catalog.len(), 38);
    let mut names: Vec<&str> = catalog.iter().map(|d| d.name).collect();
    names.sort();
    names.dedup();
    assert_eq!(names.len(), 38);
    assert!(catalog.iter().all(|d| d.name.starts_with("claude_chat_")));
}

#[test]
fn catalog_keeps_kinds_and_units() {
    let catalog = metric_catalog();
    assert_eq!(catalog[0].name, "claude_chat_matrix_messages_received_total");
    assert_eq!(catalog[0].kind, MetricKind::Counter);
    assert_eq!(catalog[0].description, "Matrix messages received");
    let sync = catalog.iter().find(|d| d.name == "claude_chat_matrix_sync_duration_seconds").unwrap();
    assert_eq!(sync.kind, MetricKind::Histogram(MetricUnit::Seconds));
    let store = catalog.iter().find(|d| d.name == "claude_chat_store_bytes").unwrap();
    assert_eq!(store.kind, MetricKind::Gauge(MetricUnit::Bytes));
    let counters = catalog.iter().filter(|d| d.kind == MetricKind::Counter).count();
    let gauges = catalog.iter().filter(|d| matches!(d.kind, MetricKind::Gauge(_))).count();
    let histograms = catalog.iter().filter(|d| matches!(d.kind, MetricKind::Histogram(_))).count();
    assert_eq!((counters, gauges, histograms), (22, 7, 9));
    for d in &catalog {
        assert_eq!(d.kind == MetricKind::Counter, d.name.ends_with("_total"));
        let unit = match d.kind {
            MetricKind::Counter => None,
            MetricKind::Gauge(u) | MetricKind::Histogram(u) => Some(u),
        };
        assert_eq!(unit == Some(MetricUnit::Seconds), d.name.ends_with("_seconds"));
        assert_eq!(unit == Some(MetricUnit::Bytes), d.name.ends_with("_bytes"));
    }
    let last = catalog.last().unwrap();
    assert_eq!(last.name, "claude_chat_rooms_active");
    assert_eq!(last.kind, MetricKind::Gauge(MetricUnit::Count));
}
