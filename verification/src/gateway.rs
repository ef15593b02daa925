//! The gateway's decisions: which routes it forwards, API-key checks, where a request is
//! forwarded, and its numeric settings.
use vstd::prelude::*;
use crate::text::{all_digits, digits_value, parse_u64, parse_u64_spec, same_text, unsigned_digits};

verus! {

/// The path prefix of the gateway's public API.
pub open spec fn api_prefix() -> Seq<char> {
    "/api/v1"@
}

/// `path.strip_prefix("/api/v1").unwrap_or(path)`.
pub open spec fn strip_api_prefix(path: Seq<char>) -> Seq<char> {
    if path.len() >= 7 && path.subrange(0, 7) == api_prefix() {
        path.subrange(7, path.len() as int)
    } else {
        path
    }
}

/// The agent URL that a gateway request is forwarded to: the agent's base URL, then the
/// request's path and query without the `/api/v1` prefix (a request without path and
/// query counts as `/api/v1`).
pub open spec fn proxy_target_spec(base: Seq<char>, path_and_query: Option<Seq<char>>) -> Seq<char> {
    let p = match path_and_query {
        Some(p) => p,
        None => api_prefix(),
    };
    base + strip_api_prefix(p)
}

/// The agent URL that a gateway request is forwarded to.
pub fn proxy_target(base: &str, path_and_query: Option<&str>) -> (t: String)
    ensures
        t@ == proxy_target_spec(base@, match path_and_query {
            Some(p) => Some(p@),
            None => None,
        }),
{
    proof {
        reveal_strlit("/api/v1");
    }
    let p = match path_and_query {
        Some(p) => p,
        None => "/api/v1",
    };
    let n = p.unicode_len();
    let mut t = String::from_str(base);
    if n >= 7 && same_text(p.substring_char(0, 7), "/api/v1") {
        t.append(p.substring_char(7, n));
    } else {
        t.append(p);
    }
    t
}

/// Law: a request under `/api/v1` reaches the agent at the same path without the prefix.
pub proof fn law_proxy_strips_prefix(base: Seq<char>, rest: Seq<char>)
    ensures
        proxy_target_spec(base, Some(api_prefix() + rest)) == base + rest,
{
    reveal_strlit("/api/v1");
    let p = api_prefix() + rest;
    assert(p.subrange(0, 7) =~= api_prefix());
    assert(p.subrange(7, p.len() as int) =~= rest);
}

/// A request passes the gateway's check when it presents exactly the configured API key.
pub fn api_key_accepted(presented: Option<&str>, api_key: &str) -> (ok: bool)
    ensures
        ok == (presented matches Some(k) && k@ == api_key@),
{
    match presented {
        Some(k) => same_text(k, api_key),
        None => false,
    }
}

/// A numeric setting: its text read as a `u64`, else the default.
pub fn setting_u64_or(raw: Option<&str>, default: u64) -> (v: u64)
    ensures
        v == (match raw {
            Some(s) => match parse_u64_spec(s@) {
                Some(x) => x,
                None => default,
            },
            None => default,
        }),
{
    match raw {
        Some(s) => match parse_u64(s) {
            Some(x) => x,
            None => default,
        },
        None => default,
    }
}

/// What `s.parse::<u32>().ok()` gives.
pub open spec fn parse_u32_spec(s: Seq<char>) -> Option<u32> {
    let d = unsigned_digits(s);
    if d.len() > 0 && all_digits(d) && digits_value(d) <= u32::MAX {
        Some(digits_value(d) as u32)
    } else {
        None
    }
}

/// `s.parse::<u32>().ok()`.
pub fn parse_u32(s: &str) -> (r: Option<u32>)
    ensures
        r == parse_u32_spec(s@),
{
    match parse_u64(s) {
        Some(x) => if x <= u32::MAX as u64 {
            Some(x as u32)
        } else {
            None
        },
        None => None,
    }
}

/// A numeric setting: its text read as a `u32`, else the default.
pub fn setting_u32_or(raw: Option<&str>, default: u32) -> (v: u32)
    ensures
        v == (match raw {
            Some(s) => match parse_u32_spec(s@) {
                Some(x) => x,
                None => default,
            },
            None => default,
        }),
{
    match raw {
        Some(s) => match parse_u32(s) {
            Some(x) => x,
            None => default,
        },
        None => default,
    }
}

/// HTTP methods the gateway forwards.
pub enum RouteMethod {
    Get,
    Patch,
}

/// A route of the gateway's public API, under `/api/v1`.
pub struct Route {
    pub method: RouteMethod,
    pub path: String,
}

/// The read-mostly agent routes the gateway exposes, and nothing else.
pub open spec fn exposed_routes() -> Seq<(RouteMethod, Seq<char>)> {
    seq![
        (RouteMethod::Get, "/metrics"@),
        (RouteMethod::Get, "/metrics/history"@),
        (RouteMethod::Get, "/brokers"@),
        (RouteMethod::Get, "/alerts"@),
        (RouteMethod::Patch, "/alerts/{id}/acknowledge"@),
    ]
}

fn route(method: RouteMethod, path: &str) -> (r: Route)
    ensures
        r.method == method,
        r.path@ == path@,
{
    Route { method, path: String::from_str(path) }
}

/// The gateway's route table.
pub fn gateway_routes() -> (r: Vec<Route>)
    ensures
        r@.len() == exposed_routes().len(),
        forall|i: int|
            0 <= i < r@.len() ==> (#[trigger] r@[i]).method == exposed_routes()[i].0
                && r@[i].path@ == exposed_routes()[i].1,
{
    let mut r: Vec<Route> = Vec::new();
    r.push(route(RouteMethod::Get, "/metrics"));
    r.push(route(RouteMethod::Get, "/metrics/history"));
    r.push(route(RouteMethod::Get, "/brokers"));
    r.push(route(RouteMethod::Get, "/alerts"));
    r.push(route(RouteMethod::Patch, "/alerts/{id}/acknowledge"));
    r
}

/// Law: the gateway exposes none of the agent's management routes: neither `/reload`,
/// nor any route that registers or removes a broker.
pub proof fn law_no_management_route()
    ensures
        forall|i: int|
            0 <= i < exposed_routes().len() ==> {
                let (m, p) = #[trigger] exposed_routes()[i];
                &&& p != "/reload"@
                &&& p != "/brokers/{id}"@
                &&& p == "/brokers"@ ==> m == RouteMethod::Get
            },
{
    reveal_strlit("/reload");
    reveal_strlit("/brokers/{id}");
    reveal_strlit("/brokers");
    reveal_strlit("/metrics");
    reveal_strlit("/metrics/history");
    reveal_strlit("/alerts");
    reveal_strlit("/alerts/{id}/acknowledge");
    let r = exposed_routes();
    assert forall|i: int| 0 <= i < r.len() implies {
        let (m, p) = #[trigger] r[i];
        &&& p != "/reload"@
        &&& p != "/brokers/{id}"@
        &&& p == "/brokers"@ ==> m == RouteMethod::Get
    } by {
        let p = r[i].1;
        if i == 3 {
            assert(p[1] != "/reload"@[1]);
        } else {
            assert(p.len() != "/reload"@.len());
        }
        assert(p.len() != "/brokers/{id}"@.len());
        if i != 2 {
            assert(p.len() != "/brokers"@.len() || p[1] != "/brokers"@[1]);
        }
    }
}

} // verus!
