//! `GET /metrics/history`: checking the time range and building the Flux query.
use vstd::prelude::*;
use vstd::string::StringSliceAdditionalSpecFns;
use crate::brokers::{broker_id_is_valid, valid_broker_id};
use crate::model::{ErrorResponse, HistoryQuery};
use crate::text::{decimal, decimal_text};
use vstd::utf8::encode_utf8;

verus! {

/// Whether `chrono::DateTime::parse_from_rfc3339` accepts a text.
pub uninterp spec fn rfc3339_accepts(s: Seq<char>) -> bool;

/// Calls `chrono::DateTime::parse_from_rfc3339` and reports whether it succeeded. The
/// contract names the outcome `rfc3339_accepts` of the text, and states the one fact of
/// chrono's source that the library uses: a text shorter than 19 bytes is refused before
/// anything else is looked at.
#[verifier::external_body]
fn is_rfc3339(s: &str) -> (ok: bool)
    ensures
        ok == rfc3339_accepts(s@),
        s.spec_bytes().len() < 19 ==> !ok,
{
    chrono::DateTime::parse_from_rfc3339(s).is_ok()
}

/// The end of the range: the one given, else the current time.
pub open spec fn resolved_to(q: HistoryQuery, now_rfc3339: Seq<char>) -> Seq<char> {
    match q.to {
        Some(t) => t@,
        None => now_rfc3339,
    }
}

/// Rows per page: 100 unless given, never more than 1000.
pub open spec fn effective_limit(limit: Option<usize>) -> usize {
    let v = match limit {
        Some(x) => x,
        None => 100,
    };
    if v < 1000 {
        v
    } else {
        1000
    }
}

/// Rows to skip: 0 unless given.
pub open spec fn effective_offset(offset: Option<usize>) -> usize {
    match offset {
        Some(x) => x,
        None => 0,
    }
}

/// The Flux query for one broker's points in a time range.
pub open spec fn flux_query(
    bucket: Seq<char>,
    from: Seq<char>,
    to: Seq<char>,
    broker_id: Seq<char>,
    limit: nat,
    offset: nat,
) -> Seq<char> {
    "from(bucket: \""@ + bucket + "\")\n  |> range(start: "@ + from + ", stop: "@ + to
        + ")\n  |> filter(fn: (r) => r._measurement == \"broker_metrics\")\n  |> filter(fn: (r) => r.broker_id == \""@
        + broker_id
        + "\")\n  |> pivot(rowKey: [\"_time\"], columnKey: [\"_field\"], valueColumn: \"_value\")\n  |> sort(columns: [\"_time\"], desc: false)\n  |> limit(n: "@
        + decimal(limit) + ", offset: "@ + decimal(offset) + ")"@
}

/// The message for a refused start of range.
pub open spec fn from_error_text(from: Seq<char>) -> Seq<char> {
    "invalid 'from' timestamp '"@ + from
        + "': must be ISO 8601 / RFC 3339 (e.g. 2026-07-01T00:00:00Z)"@
}

/// The message for a refused end of range.
pub open spec fn to_error_text(to: Seq<char>) -> Seq<char> {
    "invalid 'to' timestamp '"@ + to + "': must be ISO 8601 / RFC 3339"@
}

/// The message for a broker id that may not go into a Flux query.
pub open spec fn broker_id_error_text(id: Seq<char>) -> Seq<char> {
    "invalid broker_id '"@ + id + "': only ASCII letters, digits, '-', '_' and '.' are allowed"@
}

/// A checked history request, ready to be sent to InfluxDB.
pub struct HistoryPlan {
    pub broker_id: String,
    pub from: String,
    pub to: String,
    pub limit: usize,
    pub offset: usize,
    pub flux: String,
}

/// The outcome of a history request, given whether chrono accepts its start (`from_ok`)
/// and its resolved end `to` (`to_ok`): the start is checked first, then the end, then the
/// broker id (see `valid_broker_id`), which is spliced into the query only once it has
/// passed; each refusal is a 400 answer with its message.
pub open spec fn history_outcome(
    q: HistoryQuery,
    bucket: Seq<char>,
    to: Seq<char>,
    from_ok: bool,
    to_ok: bool,
    r: Result<HistoryPlan, ErrorResponse>,
) -> bool {
    if !from_ok {
        r is Err && r->Err_0.error@ == from_error_text(q.from@)
    } else if !to_ok {
        r is Err && r->Err_0.error@ == to_error_text(to)
    } else if !valid_broker_id(q.broker_id@) {
        r is Err && r->Err_0.error@ == broker_id_error_text(q.broker_id@)
    } else {
        &&& r is Ok
        &&& r->Ok_0.broker_id@ == q.broker_id@
        &&& r->Ok_0.from@ == q.from@
        &&& r->Ok_0.to@ == to
        &&& r->Ok_0.limit == effective_limit(q.limit)
        &&& r->Ok_0.offset == effective_offset(q.offset)
        &&& r->Ok_0.flux@ == flux_query(
            bucket,
            q.from@,
            to,
            q.broker_id@,
            effective_limit(q.limit) as nat,
            effective_offset(q.offset) as nat,
        )
    }
}

/// The history request once chrono's verdicts on its start and its resolved end `to` are
/// known.
pub fn plan_history_query_checked(
    q: &HistoryQuery,
    bucket: &str,
    to: String,
    from_ok: bool,
    to_ok: bool,
) -> (r: Result<HistoryPlan, ErrorResponse>)
    ensures
        history_outcome(*q, bucket@, to@, from_ok, to_ok, r),
{
    if !from_ok {
        let mut msg = String::from_str("invalid 'from' timestamp '");
        msg.append(q.from.as_str());
        msg.append("': must be ISO 8601 / RFC 3339 (e.g. 2026-07-01T00:00:00Z)");
        return Err(ErrorResponse { error: msg });
    }
    if !to_ok {
        let mut msg = String::from_str("invalid 'to' timestamp '");
        msg.append(to.as_str());
        msg.append("': must be ISO 8601 / RFC 3339");
        return Err(ErrorResponse { error: msg });
    }
    if !broker_id_is_valid(q.broker_id.as_str()) {
        let mut msg = String::from_str("invalid broker_id '");
        msg.append(q.broker_id.as_str());
        msg.append("': only ASCII letters, digits, '-', '_' and '.' are allowed");
        return Err(ErrorResponse { error: msg });
    }
    let asked = match q.limit {
        Some(x) => x,
        None => 100,
    };
    let limit = if asked < 1000 {
        asked
    } else {
        1000
    };
    let offset = match q.offset {
        Some(x) => x,
        None => 0,
    };
    let mut flux = String::from_str("from(bucket: \"");
    flux.append(bucket);
    flux.append("\")\n  |> range(start: ");
    flux.append(q.from.as_str());
    flux.append(", stop: ");
    flux.append(to.as_str());
    flux.append(
        ")\n  |> filter(fn: (r) => r._measurement == \"broker_metrics\")\n  |> filter(fn: (r) => r.broker_id == \"",
    );
    flux.append(q.broker_id.as_str());
    flux.append(
        "\")\n  |> pivot(rowKey: [\"_time\"], columnKey: [\"_field\"], valueColumn: \"_value\")\n  |> sort(columns: [\"_time\"], desc: false)\n  |> limit(n: ",
    );
    let limit_text = decimal_text(limit as u64);
    flux.append(limit_text.as_str());
    flux.append(", offset: ");
    let offset_text = decimal_text(offset as u64);
    flux.append(offset_text.as_str());
    flux.append(")");
    Ok(
        HistoryPlan {
            broker_id: q.broker_id.clone(),
            from: q.from.clone(),
            to,
            limit,
            offset,
            flux,
        },
    )
}

/// `GET /metrics/history` up to the InfluxDB query: the start and the end (the current
/// time `now_rfc3339` when none is given) must be RFC 3339 as chrono reads it.
pub fn plan_history_query(q: &HistoryQuery, bucket: &str, now_rfc3339: String) -> (r: Result<
    HistoryPlan,
    ErrorResponse,
>)
    ensures
        history_outcome(
            *q,
            bucket@,
            resolved_to(*q, now_rfc3339@),
            rfc3339_accepts(q.from@),
            rfc3339_accepts(resolved_to(*q, now_rfc3339@)),
            r,
        ),
        encode_utf8(q.from@).len() < 19 ==> (r is Err && r->Err_0.error@ == from_error_text(q.from@)),
{
    let from_ok = is_rfc3339(q.from.as_str());
    let to = match &q.to {
        Some(t) => t.clone(),
        None => now_rfc3339,
    };
    let to_ok = is_rfc3339(to.as_str());
    plan_history_query_checked(q, bucket, to, from_ok, to_ok)
}

/// Law: a broker id that reaches a Flux query holds neither a double quote nor a
/// backslash, so it cannot end or escape the query's string literal.
pub proof fn law_history_id_cannot_break_out(
    q: HistoryQuery,
    bucket: Seq<char>,
    to: Seq<char>,
    from_ok: bool,
    to_ok: bool,
    r: Result<HistoryPlan, ErrorResponse>,
)
    requires
        history_outcome(q, bucket, to, from_ok, to_ok, r),
        r is Ok,
    ensures
        forall|k: int|
            0 <= k < q.broker_id@.len() ==> (#[trigger] q.broker_id@[k]) != '"' && q.broker_id@[k]
                != '\\',
{
    assert forall|k: int| 0 <= k < q.broker_id@.len() implies (#[trigger] q.broker_id@[k]) != '"'
        && q.broker_id@[k] != '\\' by {
        assert(crate::brokers::is_broker_id_char(q.broker_id@[k]));
    }
}

/// Law: a history request whose start and end chrono accepts, for a non-empty broker id
/// of ASCII letters of either case, digits, `-`, `_` and `.`, is planned: the plan carries
/// the id, and the Flux query filters on it.
pub proof fn law_history_plans_plain_ids(
    q: HistoryQuery,
    bucket: Seq<char>,
    to: Seq<char>,
    r: Result<HistoryPlan, ErrorResponse>,
)
    requires
        history_outcome(q, bucket, to, true, true, r),
        q.broker_id@.len() > 0,
        forall|k: int|
            0 <= k < q.broker_id@.len() ==> {
                let c = #[trigger] q.broker_id@[k];
                ||| 'a' <= c <= 'z'
                ||| 'A' <= c <= 'Z'
                ||| '0' <= c <= '9'
                ||| c == '-'
                ||| c == '_'
                ||| c == '.'
            },
    ensures
        r is Ok,
        r->Ok_0.broker_id@ == q.broker_id@,
        r->Ok_0.limit == effective_limit(q.limit),
        r->Ok_0.offset == effective_offset(q.offset),
        r->Ok_0.flux@ == flux_query(
            bucket,
            q.from@,
            to,
            q.broker_id@,
            effective_limit(q.limit) as nat,
            effective_offset(q.offset) as nat,
        ),
{
    crate::brokers::law_broker_id_charset(q.broker_id@);
}

/// Law: a page never holds more than 1000 rows, and holds 100 when no limit is asked for.
pub proof fn law_history_limit_capped(limit: Option<usize>)
    ensures
        effective_limit(limit) <= 1000,
        limit is None ==> effective_limit(limit) == 100,
        limit matches Some(x) ==> (x <= 1000 ==> effective_limit(limit) == x),
{
}

} // verus!
