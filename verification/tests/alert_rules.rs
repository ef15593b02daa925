use progressbox::cooldown::CooldownTable;
use progressbox::model::{AlertRule, BrokerMetrics};
use progressbox::rules::{
    comparison_of, cooldown_key, metric_reading, post_reload, register_breach,
    Comparison, Reading, ReloadReply,
};

const SEC: u64 = 1_000_000_000;

fn rule(metric: &str, cooldown_secs: u64) -> AlertRule {
    AlertRule {
        metric: metric.to_string(),
        operator: ">".to_string(),
        threshold_bits: 80.0f64.to_bits(),
        cooldown_secs,
    }
}

#[test]
fn cooldown_blocks_until_it_is_over() {
    let mut t = CooldownTable::new();
    assert!(t.try_fire("b1:cpu".to_string(), 10 * SEC, 60));
    assert_eq!(t.last_fired("b1:cpu"), Some(10 * SEC));
    assert!(!t.try_fire("b1:cpu".to_string(), 69 * SEC + SEC - 1, 60));
    assert_eq!(t.last_fired("b1:cpu"), Some(10 * SEC));
    assert!(t.try_fire("b1:cpu".to_string(), 70 * SEC, 60));
    assert_eq!(t.last_fired("b1:cpu"), Some(70 * SEC));
}

#[test]
fn cooldown_keys_are_independent() {
    let mut t = CooldownTable::new();
    assert!(t.try_fire("b1:cpu".to_string(), SEC, 600));
    assert!(t.try_fire("b2:cpu".to_string(), SEC, 600));
    assert!(!t.try_fire("b1:cpu".to_string(), 2 * SEC, 600));
    assert_eq!(t.last_fired("b3:cpu"), None);
}

#[test]
fn cleared_table_fires_again() {
    let mut t = CooldownTable::new();
    assert!(t.try_fire("k".to_string(), SEC, 600));
    t.clear();
    assert_eq!(t.last_fired("k"), None);
    assert!(t.try_fire("k".to_string(), 2 * SEC, 600));
}

#[test]
fn zero_cooldown_always_fires() {
    let mut t = CooldownTable::new();
    assert!(t.try_fire("k".to_string(), SEC, 0));
    assert!(t.try_fire("k".to_string(), SEC, 0));
}

#[test]
fn earlier_clock_counts_as_no_time_elapsed() {
    let mut t = CooldownTable::new();
    assert!(t.try_fire("k".to_string(), 100 * SEC, 1));
    assert!(!t.try_fire("k".to_string(), 50 * SEC, 1));
}

#[test]
fn cooldown_key_joins_broker_and_metric() {
    assert_eq!(cooldown_key("b1", "cpu_percent"), "b1:cpu_percent");
    assert_eq!(cooldown_key("", ""), ":");
}

#[test]
fn breach_registration_shares_key_per_broker_and_metric() {
    let mut t = CooldownTable::new();
    let r1 = rule("cpu_percent", 300);
    let r2 = rule("cpu_percent", 0);
    assert!(register_breach(&mut t, "b1", &r1, SEC));
    assert!(!register_breach(&mut t, "b1", &r1, 2 * SEC));
    assert!(register_breach(&mut t, "b1", &r2, 3 * SEC));
    assert!(register_breach(&mut t, "b2", &r1, 3 * SEC));
    assert_eq!(t.last_fired("b1:cpu_percent"), Some(3 * SEC));
}

#[test]
fn readings_follow_the_metric_name() {
    let mut m = BrokerMetrics::new();
    m.clients_connected = Some(3);
    m.messages_sent = Some(4);
    m.messages_received = Some(5);
    m.bytes_sent = Some(6);
    m.bytes_received = Some(7);
    m.cpu_percent_bits = Some(12.5f64.to_bits());
    m.mem_usage_mb_bits = None;
    m.net_rx_bytes = Some(8);
    m.net_tx_bytes = Some(9);
    let count = |name: &str| match metric_reading(&m, name) {
        Some(Reading::Count(v)) => Some(v),
        _ => None,
    };
    assert_eq!(count("clients_connected"), Some(3));
    assert_eq!(count("messages_sent"), Some(4));
    assert_eq!(count("messages_received"), Some(5));
    assert_eq!(count("bytes_sent"), Some(6));
    assert_eq!(count("bytes_received"), Some(7));
    assert_eq!(count("net_rx_bytes"), Some(8));
    assert_eq!(count("net_tx_bytes"), Some(9));
    assert!(matches!(metric_reading(&m, "cpu_percent"), Some(Reading::Gauge(b)) if f64::from_bits(b) == 12.5));
    assert!(metric_reading(&m, "mem_usage_mb").is_none());
    assert!(metric_reading(&m, "disk").is_none());
}

#[test]
fn operators_name_comparisons() {
    assert!(matches!(comparison_of(">"), Some(Comparison::Above)));
    assert!(matches!(comparison_of("<"), Some(Comparison::Below)));
    assert!(matches!(comparison_of("=="), Some(Comparison::Equal)));
    assert!(comparison_of(">=").is_none());
    assert!(comparison_of("").is_none());
}

#[test]
fn reload_puts_new_rules_in_force_and_rearms() {
    let mut rules = vec![rule("cpu_percent", 60)];
    let mut t = CooldownTable::new();
    t.try_fire("b1:cpu_percent".to_string(), SEC, 60);
    let r = post_reload(&mut rules, &mut t, Ok(vec![rule("bytes_sent", 5), rule("mem_usage_mb", 5)]));
    assert_eq!(r.status(), 200);
    assert!(matches!(r, ReloadReply::Reloaded { count: 2 }));
    assert_eq!(rules.len(), 2);
    assert_eq!(rules[0].metric, "bytes_sent");
    assert_eq!(t.last_fired("b1:cpu_percent"), None);
}

#[test]
fn refused_reload_keeps_rules_and_cooldowns() {
    let mut rules = vec![rule("cpu_percent", 60)];
    let mut t = CooldownTable::new();
    t.try_fire("b1:cpu_percent".to_string(), SEC, 60);
    let r = post_reload(&mut rules, &mut t, Err("unknown metric 'disk'".to_string()));
    assert_eq!(r.status(), 400);
    match r {
        ReloadReply::Rejected(e) => assert_eq!(e.error, "unknown metric 'disk'"),
        _ => panic!("expected a refusal"),
    }
    assert_eq!(rules.len(), 1);
    assert_eq!(rules[0].metric, "cpu_percent");
    assert_eq!(t.last_fired("b1:cpu_percent"), Some(SEC));
}

fn breach(broker: &str, r: &AlertRule, seen_secs: u64, id: &str) -> progressbox::rules::Breach {
    progressbox::rules::Breach {
        broker_id: broker.to_string(),
        rule: r.duplicate(),
        value_bits: 95.0f64.to_bits(),
        seen_ns: seen_secs * SEC,
        fired_at: 1_700_000_000 + seen_secs as i64,
        alert_id: id.to_string(),
    }
}

#[test]
fn round_fires_once_per_broker_and_metric() {
    let mut t = CooldownTable::new();
    let cpu = rule("cpu_percent", 60);
    let also_cpu = rule("cpu_percent", 30);
    let bytes = rule("bytes_sent", 60);
    let fired = progressbox::rules::decide_round(
        &mut t,
        vec![
            breach("b1", &cpu, 10, "x1"),
            breach("b1", &also_cpu, 10, "x2"),
            breach("b1", &bytes, 10, "x3"),
            breach("b2", &cpu, 10, "x4"),
        ],
    );
    let ids: Vec<&str> = fired.iter().map(|a| a.id.as_str()).collect();
    assert_eq!(ids, vec!["x1", "x3", "x4"]);
    assert!(fired.iter().all(|a| !a.acknowledged));
    assert_eq!(fired[0].metric, "cpu_percent");
    assert_eq!(f64::from_bits(fired[0].threshold_bits), 80.0);
    assert_eq!(fired[0].fired_at, 1_700_000_010);
    assert_eq!(t.last_fired("b1:cpu_percent"), Some(10 * SEC));
    let later = progressbox::rules::decide_round(
        &mut t,
        vec![breach("b1", &cpu, 69, "y1"), breach("b1", &cpu, 70, "y2")],
    );
    let ids: Vec<&str> = later.iter().map(|a| a.id.as_str()).collect();
    assert_eq!(ids, vec!["y2"]);
    assert_eq!(t.last_fired("b1:cpu_percent"), Some(70 * SEC));
}

#[test]
fn round_alerts_are_appended_behind_the_store() {
    let mut t = CooldownTable::new();
    let cpu = rule("cpu_percent", 60);
    let mut store = Vec::new();
    let first = progressbox::rules::decide_round(&mut t, vec![breach("b1", &cpu, 1, "a")]);
    progressbox::rules::append_alerts(&mut store, first);
    let second = progressbox::rules::decide_round(&mut t, vec![breach("b2", &cpu, 2, "b"), breach("b1", &cpu, 2, "c")]);
    progressbox::rules::append_alerts(&mut store, second);
    let ids: Vec<&str> = store.iter().map(|a| a.id.as_str()).collect();
    assert_eq!(ids, vec!["a", "b"]);
}

#[test]
fn empty_round_changes_nothing() {
    let mut t = CooldownTable::new();
    assert!(progressbox::rules::decide_round(&mut t, Vec::new()).is_empty());
    assert_eq!(t.last_fired("b1:cpu_percent"), None);
}

#[test]
fn rules_file_check_names_first_unknown_metric() {
    let ok = vec![rule("cpu_percent", 1), rule("net_tx_bytes", 1)];
    assert_eq!(progressbox::rules::check_rule_metrics(&ok, "rules.toml"), Ok(()));
    let bad = vec![rule("cpu_percent", 1), rule("disk", 1), rule("temp", 1)];
    assert_eq!(
        progressbox::rules::check_rule_metrics(&bad, "rules.toml"),
        Err("unknown metric 'disk' in rules file 'rules.toml'".to_string())
    );
    assert_eq!(progressbox::rules::check_rule_metrics(&Vec::new(), "r"), Ok(()));
}

#[test]
fn spacing_holds_across_rounds() {
    let mut t = CooldownTable::new();
    let cpu = rule("cpu_percent", 60);
    let first = progressbox::rules::decide_round(&mut t, vec![breach("b1", &cpu, 100, "r1")]);
    assert_eq!(first.len(), 1);
    let second = progressbox::rules::decide_round(&mut t, vec![breach("b1", &cpu, 130, "r2")]);
    assert!(second.is_empty());
    let third = progressbox::rules::decide_round(&mut t, vec![breach("b1", &cpu, 160, "r3")]);
    assert_eq!(third.len(), 1);
    assert_eq!(t.last_fired("b1:cpu_percent"), Some(160 * SEC));
}
