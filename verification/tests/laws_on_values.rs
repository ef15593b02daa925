use progressbox::alerts::get_alerts;
use progressbox::metrics::{get_brokers, get_metrics};
use progressbox::model::{AlertsQuery, BrokerMetrics, FiredAlert};
use progressbox::rules::known_metric;

fn alert(id: &str, acknowledged: bool) -> FiredAlert {
    FiredAlert {
        id: id.to_string(),
        broker_id: "b".to_string(),
        metric: "cpu_percent".to_string(),
        operator: "<".to_string(),
        value_bits: 1.0f64.to_bits(),
        threshold_bits: 2.0f64.to_bits(),
        fired_at: 0,
        acknowledged,
    }
}

#[test]
fn acknowledged_and_unacknowledged_cover_the_store() {
    let store = vec![alert("1", true), alert("2", false), alert("3", false), alert("4", true), alert("5", false)];
    let q = |v: bool| AlertsQuery { acknowledged: Some(v), broker_id: None, metric: None };
    let yes = get_alerts(&store, &q(true));
    let no = get_alerts(&store, &q(false));
    assert_eq!(yes.count + no.count, store.len());
    assert_eq!(yes.count, 2);
}

#[test]
fn brokers_answer_ignores_registry_order() {
    let a = get_brokers(vec!["c".to_string(), "a".to_string(), "b".to_string()]);
    let b = get_brokers(vec!["b".to_string(), "c".to_string(), "a".to_string()]);
    assert_eq!(a.brokers, b.brokers);
}

#[test]
fn equal_ids_keep_their_order() {
    let mut first = BrokerMetrics::new();
    first.clients_connected = Some(1);
    let mut second = BrokerMetrics::new();
    second.clients_connected = Some(2);
    let entries = vec![
        ("z".to_string(), BrokerMetrics::new()),
        ("dup".to_string(), first),
        ("a".to_string(), BrokerMetrics::new()),
        ("dup".to_string(), second),
    ];
    let r = get_metrics(entries, 0, 60);
    let seen: Vec<(String, Option<u64>)> =
        r.brokers.iter().map(|b| (b.broker_id.clone(), b.clients_connected)).collect();
    assert_eq!(
        seen,
        vec![
            ("a".to_string(), None),
            ("dup".to_string(), Some(1)),
            ("dup".to_string(), Some(2)),
            ("z".to_string(), None),
        ]
    );
}

#[test]
fn only_known_metrics_pass_the_rules_check() {
    for m in [
        "clients_connected", "messages_sent", "messages_received", "bytes_sent", "bytes_received",
        "cpu_percent", "mem_usage_mb", "net_rx_bytes", "net_tx_bytes",
    ] {
        assert!(known_metric(m), "{}", m);
    }
    assert!(!known_metric("disk_usage"));
    assert!(!known_metric("CPU_PERCENT"));
    assert!(!known_metric(""));
}

#[test]
fn published_counter_is_served() {
    let mut m = BrokerMetrics::new();
    progressbox::metrics::apply_publish(&mut m, "h".to_string(), "$SYS/broker/clients/connected", "42", 1000);
    let fresh = get_metrics(vec![("b1".to_string(), m.duplicate())], 1060, 60);
    assert_eq!(fresh.brokers[0].clients_connected, Some(42));
    assert!(!fresh.brokers[0].stale);
    let old = get_metrics(vec![("b1".to_string(), m)], 1061, 60);
    assert!(old.brokers[0].stale);
}
