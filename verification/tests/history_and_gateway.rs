use progressbox::gateway::{
    api_key_accepted, gateway_routes, parse_u32, proxy_target, setting_u32_or, setting_u64_or,
    RouteMethod,
};
use progressbox::history::{plan_history_query, plan_history_query_checked};
use progressbox::model::HistoryQuery;

fn query(from: &str, to: Option<&str>, limit: Option<usize>, offset: Option<usize>) -> HistoryQuery {
    HistoryQuery {
        broker_id: "b1".to_string(),
        from: from.to_string(),
        to: to.map(|t| t.to_string()),
        limit,
        offset,
    }
}

const EXPECTED_FLUX: &str = r#"from(bucket: "metrics")
  |> range(start: 2026-07-01T00:00:00Z, stop: 2026-07-02T00:00:00Z)
  |> filter(fn: (r) => r._measurement == "broker_metrics")
  |> filter(fn: (r) => r.broker_id == "b1")
  |> pivot(rowKey: ["_time"], columnKey: ["_field"], valueColumn: "_value")
  |> sort(columns: ["_time"], desc: false)
  |> limit(n: 100, offset: 0)"#;

#[test]
fn checked_plan_builds_the_flux_query() {
    let q = query("2026-07-01T00:00:00Z", None, None, None);
    let plan = plan_history_query_checked(&q, "metrics", "2026-07-02T00:00:00Z".to_string(), true, true)
        .ok()
        .unwrap();
    assert_eq!(plan.flux, EXPECTED_FLUX);
    assert_eq!(plan.limit, 100);
    assert_eq!(plan.offset, 0);
    assert_eq!(plan.to, "2026-07-02T00:00:00Z");
    assert_eq!(plan.broker_id, "b1");
}

#[test]
fn limit_is_capped_and_offset_kept() {
    let q = query("x", None, Some(5000), Some(40));
    let plan = plan_history_query_checked(&q, "m", "y".to_string(), true, true).ok().unwrap();
    assert_eq!(plan.limit, 1000);
    assert_eq!(plan.offset, 40);
    assert!(plan.flux.ends_with("|> limit(n: 1000, offset: 40)"));
    let q = query("x", None, Some(7), None);
    let plan = plan_history_query_checked(&q, "m", "y".to_string(), true, true).ok().unwrap();
    assert_eq!(plan.limit, 7);
}

#[test]
fn start_is_checked_before_end() {
    let q = query("bad", Some("worse"), None, None);
    let e = plan_history_query_checked(&q, "m", "worse".to_string(), false, false).err().unwrap();
    assert_eq!(
        e.error,
        "invalid 'from' timestamp 'bad': must be ISO 8601 / RFC 3339 (e.g. 2026-07-01T00:00:00Z)"
    );
    let e = plan_history_query_checked(&q, "m", "worse".to_string(), true, false).err().unwrap();
    assert_eq!(e.error, "invalid 'to' timestamp 'worse': must be ISO 8601 / RFC 3339");
}

#[test]
fn chrono_decides_the_range() {
    let ok = query("2026-07-01T00:00:00Z", Some("2026-07-02T12:30:00+02:00"), None, None);
    let plan = plan_history_query(&ok, "bucket", "2030-01-01T00:00:00Z".to_string()).ok().unwrap();
    assert_eq!(plan.to, "2026-07-02T12:30:00+02:00");
    let bad_from = query("yesterday", None, None, None);
    let e = plan_history_query(&bad_from, "bucket", "2030-01-01T00:00:00Z".to_string()).err().unwrap();
    assert!(e.error.starts_with("invalid 'from' timestamp 'yesterday'"));
    let bad_to = query("2026-07-01T00:00:00Z", Some("2026-13-01T00:00:00Z"), None, None);
    let e = plan_history_query(&bad_to, "bucket", "2030-01-01T00:00:00Z".to_string()).err().unwrap();
    assert_eq!(e.error, "invalid 'to' timestamp '2026-13-01T00:00:00Z': must be ISO 8601 / RFC 3339");
}

#[test]
fn missing_end_means_now() {
    let q = query("2026-07-01T00:00:00Z", None, None, None);
    let plan = plan_history_query(&q, "bucket", "2026-07-03T00:00:00+00:00".to_string()).ok().unwrap();
    assert_eq!(plan.to, "2026-07-03T00:00:00+00:00");
    assert!(plan.flux.contains("stop: 2026-07-03T00:00:00+00:00)"));
}

#[test]
fn proxy_strips_the_api_prefix() {
    assert_eq!(proxy_target("http://agent:3000", Some("/api/v1/metrics?x=1")), "http://agent:3000/metrics?x=1");
    assert_eq!(proxy_target("http://agent:3000", Some("/api/v1")), "http://agent:3000");
    assert_eq!(proxy_target("http://agent:3000", None), "http://agent:3000");
    assert_eq!(proxy_target("http://agent:3000", Some("/other")), "http://agent:3000/other");
    assert_eq!(proxy_target("http://a", Some("/api/v2/x")), "http://a/api/v2/x");
    assert_eq!(proxy_target("http://a", Some("/api/v1x")), "http://ax");
}

#[test]
fn api_key_must_match_exactly() {
    assert!(api_key_accepted(Some("s3cret"), "s3cret"));
    assert!(!api_key_accepted(Some("s3cret "), "s3cret"));
    assert!(!api_key_accepted(Some(""), "s3cret"));
    assert!(!api_key_accepted(None, "s3cret"));
}

#[test]
fn settings_fall_back_to_defaults() {
    assert_eq!(setting_u64_or(Some("25"), 10), 25);
    assert_eq!(setting_u64_or(Some("fast"), 10), 10);
    assert_eq!(setting_u64_or(None, 10), 10);
    assert_eq!(setting_u32_or(Some("40"), 20), 40);
    assert_eq!(setting_u32_or(Some("4294967296"), 20), 20);
    assert_eq!(setting_u32_or(None, 20), 20);
    assert_eq!(parse_u32("4294967295"), Some(u32::MAX));
    assert_eq!(parse_u32("-1"), None);
}

#[test]
fn gateway_exposes_read_mostly_routes() {
    let routes = gateway_routes();
    let listed: Vec<(bool, &str)> = routes
        .iter()
        .map(|r| (matches!(r.method, RouteMethod::Get), r.path.as_str()))
        .collect();
    assert_eq!(
        listed,
        vec![
            (true, "/metrics"),
            (true, "/metrics/history"),
            (true, "/brokers"),
            (true, "/alerts"),
            (false, "/alerts/{id}/acknowledge"),
        ]
    );
    assert!(routes.iter().all(|r| r.path != "/reload"));
}

#[test]
fn broker_id_is_checked_before_the_query() {
    let mut q = query("2026-07-01T00:00:00Z", Some("2026-07-02T00:00:00Z"), None, None);
    q.broker_id = "b1\") |> drop() //".to_string();
    let e = plan_history_query_checked(&q, "m", "2026-07-02T00:00:00Z".to_string(), true, true).err().unwrap();
    assert_eq!(
        e.error,
        "invalid broker_id 'b1\") |> drop() //': only ASCII letters, digits, '-', '_' and '.' are allowed"
    );
    q.broker_id = "a\\b".to_string();
    assert!(plan_history_query(&q, "m", "now".to_string()).is_err());
    q.broker_id = String::new();
    assert!(plan_history_query(&q, "m", "now".to_string()).is_err());
    q.broker_id = "edge-01_eu.west".to_string();
    let plan = plan_history_query(&q, "m", "now".to_string()).ok().unwrap();
    assert!(plan.flux.contains("r.broker_id == \"edge-01_eu.west\""));
}

#[test]
fn timestamps_are_checked_before_the_broker_id() {
    let mut q = query("bad", None, None, None);
    q.broker_id = "b\"".to_string();
    let e = plan_history_query_checked(&q, "m", "x".to_string(), false, true).err().unwrap();
    assert!(e.error.starts_with("invalid 'from' timestamp"));
    let e = plan_history_query_checked(&q, "m", "x".to_string(), true, false).err().unwrap();
    assert!(e.error.starts_with("invalid 'to' timestamp"));
}
