use progressbox::alerts::{acknowledge_in_store, get_alerts, patch_alert_acknowledge, AckReply};
use progressbox::model::{AlertsQuery, FiredAlert};

fn alert(id: &str, broker: &str, metric: &str, acknowledged: bool) -> FiredAlert {
    FiredAlert {
        id: id.to_string(),
        broker_id: broker.to_string(),
        metric: metric.to_string(),
        operator: ">".to_string(),
        value_bits: 95.5f64.to_bits(),
        threshold_bits: 90.0f64.to_bits(),
        fired_at: 1_700_000_000,
        acknowledged,
    }
}

fn store() -> Vec<FiredAlert> {
    vec![
        alert("a1", "b1", "cpu_percent", false),
        alert("a2", "b2", "cpu_percent", true),
        alert("a3", "b1", "mem_usage_mb", false),
        alert("a4", "b1", "cpu_percent", true),
    ]
}

fn ids(alerts: &[FiredAlert]) -> Vec<String> {
    alerts.iter().map(|a| a.id.clone()).collect()
}

fn query(acknowledged: Option<bool>, broker: Option<&str>, metric: Option<&str>) -> AlertsQuery {
    AlertsQuery {
        acknowledged,
        broker_id: broker.map(|b| b.to_string()),
        metric: metric.map(|m| m.to_string()),
    }
}

#[test]
fn no_filter_lists_every_alert() {
    let s = store();
    let r = get_alerts(&s, &query(None, None, None));
    assert_eq!(ids(&r.alerts), vec!["a1", "a2", "a3", "a4"]);
    assert_eq!(r.count, 4);
}

#[test]
fn filters_combine() {
    let s = store();
    let r = get_alerts(&s, &query(Some(false), Some("b1"), None));
    assert_eq!(ids(&r.alerts), vec!["a1", "a3"]);
    assert_eq!(r.count, 2);
    let r = get_alerts(&s, &query(None, Some("b1"), Some("cpu_percent")));
    assert_eq!(ids(&r.alerts), vec!["a1", "a4"]);
    let r = get_alerts(&s, &query(Some(true), Some("b3"), None));
    assert!(r.alerts.is_empty());
    assert_eq!(r.count, 0);
}

#[test]
fn listed_alerts_keep_their_fields() {
    let s = store();
    let r = get_alerts(&s, &query(None, Some("b2"), None));
    assert_eq!(r.alerts.len(), 1);
    let a = &r.alerts[0];
    assert_eq!(a.id, "a2");
    assert_eq!(f64::from_bits(a.value_bits), 95.5);
    assert_eq!(f64::from_bits(a.threshold_bits), 90.0);
    assert!(a.acknowledged);
}

#[test]
fn acknowledge_marks_first_match_only() {
    let mut s = store();
    s.push(alert("a1", "b9", "cpu_percent", false));
    assert!(acknowledge_in_store(&mut s, "a1"));
    assert!(s[0].acknowledged);
    assert!(!s[4].acknowledged);
    assert!(!s[2].acknowledged);
    assert_eq!(s.len(), 5);
}

#[test]
fn acknowledge_unknown_id_changes_nothing() {
    let mut s = store();
    assert!(!acknowledge_in_store(&mut s, "zz"));
    assert_eq!(ids(&s), vec!["a1", "a2", "a3", "a4"]);
    assert!(!s[0].acknowledged && !s[2].acknowledged);
}

#[test]
fn acknowledged_alert_leaves_unacknowledged_listing() {
    let mut s = store();
    acknowledge_in_store(&mut s, "a3");
    let r = get_alerts(&s, &query(Some(false), None, None));
    assert_eq!(ids(&r.alerts), vec!["a1"]);
    acknowledge_in_store(&mut s, "a3");
    let again = get_alerts(&s, &query(Some(false), None, None));
    assert_eq!(ids(&again.alerts), vec!["a1"]);
}

#[test]
fn patch_after_database_update_acknowledges() {
    let mut s = store();
    let r = patch_alert_acknowledge(&mut s, "a1".to_string(), Ok(true));
    assert_eq!(r.status(), 200);
    match r {
        AckReply::Acknowledged(body) => {
            assert_eq!(body.id, "a1");
            assert!(body.acknowledged);
        }
        _ => panic!("expected an acknowledgement"),
    }
    assert!(s[0].acknowledged);
}

#[test]
fn patch_of_unknown_alert_is_not_found() {
    let mut s = store();
    let r = patch_alert_acknowledge(&mut s, "a1".to_string(), Ok(false));
    assert_eq!(r.status(), 404);
    match r {
        AckReply::NotFound(e) => assert_eq!(e.error, "no alert with id a1"),
        _ => panic!("expected not found"),
    }
    assert!(!s[0].acknowledged);
}

#[test]
fn patch_with_database_failure_is_server_error() {
    let mut s = store();
    let r = patch_alert_acknowledge(&mut s, "a1".to_string(), Err(()));
    assert_eq!(r.status(), 500);
    match r {
        AckReply::StorageFailed(e) => assert_eq!(e.error, "db error"),
        _ => panic!("expected a storage failure"),
    }
    assert!(!s[0].acknowledged);
}
