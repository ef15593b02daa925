use progressbox::brokers::{delete_broker_status, post_broker, RegisterReply};
use progressbox::metrics::{apply_publish, get_brokers, get_metrics, mark_connection};
use progressbox::model::BrokerMetrics;

fn reported(at: Option<i64>, mqtt: bool, docker: bool) -> BrokerMetrics {
    let mut m = BrokerMetrics::new();
    m.last_updated_secs = at;
    m.mqtt_online = mqtt;
    m.docker_online = docker;
    m
}

#[test]
fn metrics_are_sorted_by_broker_with_flags() {
    let entries = vec![
        ("zeta".to_string(), reported(Some(1000), true, true)),
        ("alpha".to_string(), reported(Some(900), true, false)),
        ("mid".to_string(), reported(None, false, true)),
    ];
    let r = get_metrics(entries, 1030, 60);
    assert_eq!(r.count, 3);
    let ids: Vec<&str> = r.brokers.iter().map(|b| b.broker_id.as_str()).collect();
    assert_eq!(ids, vec!["alpha", "mid", "zeta"]);
    // alpha: 130 s old > 60: stale; online needs both links.
    assert!(r.brokers[0].stale && !r.brokers[0].online);
    assert!(r.brokers[1].stale && !r.brokers[1].online);
    assert!(!r.brokers[2].stale && r.brokers[2].online);
}

#[test]
fn staleness_threshold_is_strict() {
    let r = get_metrics(vec![("b".to_string(), reported(Some(100), true, true))], 160, 60);
    assert!(!r.brokers[0].stale);
    let r = get_metrics(vec![("b".to_string(), reported(Some(100), true, true))], 161, 60);
    assert!(r.brokers[0].stale);
}

#[test]
fn metrics_answer_ignores_walk_order() {
    let make = |order: &[&str]| {
        let entries = order.iter().map(|id| (id.to_string(), reported(Some(5), true, false))).collect();
        get_metrics(entries, 10, 60)
    };
    let a = make(&["b2", "b1", "B3", "b10"]);
    let b = make(&["b10", "B3", "b2", "b1"]);
    let ia: Vec<String> = a.brokers.iter().map(|x| x.broker_id.clone()).collect();
    let ib: Vec<String> = b.brokers.iter().map(|x| x.broker_id.clone()).collect();
    assert_eq!(ia, ib);
    assert_eq!(ia, vec!["B3", "b1", "b10", "b2"]);
}

#[test]
fn metrics_entry_copies_readings() {
    let mut m = reported(Some(1), false, false);
    m.clients_connected = Some(12);
    m.cpu_percent_bits = Some(33.5f64.to_bits());
    m.net_tx_bytes = Some(99);
    let r = get_metrics(vec![("x".to_string(), m)], 1, 60);
    let b = &r.brokers[0];
    assert_eq!(b.clients_connected, Some(12));
    assert_eq!(b.cpu_percent_bits.map(f64::from_bits), Some(33.5));
    assert_eq!(b.net_tx_bytes, Some(99));
    assert_eq!(b.messages_sent, None);
    assert_eq!(b.last_updated_secs, Some(1));
}

#[test]
fn empty_store_gives_empty_answer() {
    let r = get_metrics(Vec::new(), 0, 60);
    assert_eq!(r.count, 0);
    assert!(r.brokers.is_empty());
}

#[test]
fn brokers_are_listed_sorted() {
    let r = get_brokers(vec!["m2".to_string(), "a".to_string(), "m10".to_string()]);
    assert_eq!(r.brokers, vec!["a", "m10", "m2"]);
    assert_eq!(r.count, 3);
}

#[test]
fn publish_updates_named_counter() {
    let mut m = BrokerMetrics::new();
    apply_publish(&mut m, "mqtt.local".to_string(), "$SYS/broker/clients/connected", " 17\n", 1234);
    assert_eq!(m.clients_connected, Some(17));
    assert_eq!(m.broker_host, "mqtt.local");
    assert_eq!(m.last_updated_secs, Some(1234));
    apply_publish(&mut m, "mqtt.local".to_string(), "$SYS/broker/bytes/received", "2048", 1240);
    assert_eq!(m.bytes_received, Some(2048));
    assert_eq!(m.clients_connected, Some(17));
    apply_publish(&mut m, "mqtt.local".to_string(), "$SYS/broker/messages/sent", "5", 1241);
    apply_publish(&mut m, "mqtt.local".to_string(), "$SYS/broker/messages/received", "6", 1242);
    apply_publish(&mut m, "mqtt.local".to_string(), "$SYS/broker/bytes/sent", "7", 1243);
    assert_eq!((m.messages_sent, m.messages_received, m.bytes_sent), (Some(5), Some(6), Some(7)));
}

#[test]
fn unreadable_payload_clears_counter() {
    let mut m = BrokerMetrics::new();
    m.messages_sent = Some(3);
    apply_publish(&mut m, "h".to_string(), "$SYS/broker/messages/sent", "n/a", 9);
    assert_eq!(m.messages_sent, None);
    assert_eq!(m.last_updated_secs, Some(9));
}

#[test]
fn other_topics_only_touch_host_and_time() {
    let mut m = BrokerMetrics::new();
    m.clients_connected = Some(2);
    apply_publish(&mut m, "h2".to_string(), "$SYS/broker/uptime", "77", 50);
    assert_eq!(m.clients_connected, Some(2));
    assert_eq!(m.broker_host, "h2");
    assert_eq!(m.last_updated_secs, Some(50));
}

#[test]
fn connection_state_is_recorded() {
    let mut m = BrokerMetrics::new();
    mark_connection(&mut m, "h".to_string(), true);
    assert!(m.mqtt_online);
    assert_eq!(m.broker_host, "h");
    mark_connection(&mut m, "h".to_string(), false);
    assert!(!m.mqtt_online);
    assert_eq!(m.last_updated_secs, None);
}

#[test]
fn broker_registration_needs_an_id() {
    let r = post_broker("   ".to_string());
    assert_eq!(r.status(), 400);
    match r {
        RegisterReply::Rejected(e) => assert_eq!(e.error, "broker id must not be empty"),
        _ => panic!("expected a refusal"),
    }
    let r = post_broker("b7".to_string());
    assert_eq!(r.status(), 201);
    match r {
        RegisterReply::Registered { id } => assert_eq!(id, "b7"),
        _ => panic!("expected a registration"),
    }
}

#[test]
fn broker_removal_status() {
    assert_eq!(delete_broker_status(true), 204);
    assert_eq!(delete_broker_status(false), 404);
}
