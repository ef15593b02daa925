//! The alert store: listing with filters and acknowledging.
use vstd::prelude::*;
use crate::model::{AckResponse, AlertsEnvelope, AlertsQuery, ErrorResponse, FiredAlert};
use crate::text::same_text;

verus! {

/// An alert passes the filters of a query: each filter that is given must match.
pub open spec fn alert_matches(q: AlertsQuery, a: FiredAlert) -> bool {
    &&& (q.acknowledged matches Some(v) ==> a.acknowledged == v)
    &&& (q.broker_id matches Some(b) ==> a.broker_id@ == b@)
    &&& (q.metric matches Some(m) ==> a.metric@ == m@)
}

/// The alerts that pass the filters, in store order.
pub open spec fn matching_alerts(s: Seq<FiredAlert>, q: AlertsQuery) -> Seq<FiredAlert>
    decreases s.len(),
{
    if s.len() == 0 {
        s
    } else if alert_matches(q, s.last()) {
        matching_alerts(s.drop_last(), q).push(s.last())
    } else {
        matching_alerts(s.drop_last(), q)
    }
}

/// Decides `alert_matches`.
pub fn alert_passes(q: &AlertsQuery, a: &FiredAlert) -> (b: bool)
    ensures
        b == alert_matches(*q, *a),
{
    let ack_ok = match q.acknowledged {
        Some(v) => a.acknowledged == v,
        None => true,
    };
    let broker_ok = match &q.broker_id {
        Some(b) => same_text(a.broker_id.as_str(), b.as_str()),
        None => true,
    };
    let metric_ok = match &q.metric {
        Some(m) => same_text(a.metric.as_str(), m.as_str()),
        None => true,
    };
    ack_ok && broker_ok && metric_ok
}

/// `GET /alerts`: the stored alerts that pass the query's filters, with their count.
pub fn get_alerts(store: &Vec<FiredAlert>, q: &AlertsQuery) -> (r: AlertsEnvelope)
    ensures
        r.alerts@ == matching_alerts(store@, *q),
        r.count == r.alerts@.len(),
{
    let mut out: Vec<FiredAlert> = Vec::new();
    let n = store.len();
    let mut i: usize = 0;
    assert(store@.take(0) =~= Seq::<FiredAlert>::empty());
    while i < n
        invariant
            n == store@.len(),
            i <= n,
            out@ == matching_alerts(store@.take(i as int), *q),
        decreases n - i,
    {
        let a = &store[i];
        assert(store@.take(i + 1).drop_last() =~= store@.take(i as int));
        if alert_passes(q, a) {
            out.push(a.duplicate());
        }
        i = i + 1;
    }
    assert(store@.take(n as int) =~= store@);
    let count = out.len();
    AlertsEnvelope { alerts: out, count }
}

/// The query without filters.
pub open spec fn no_filter() -> AlertsQuery {
    AlertsQuery { acknowledged: None, broker_id: None, metric: None }
}

/// The query for alerts whose acknowledgement is `v`, and nothing else.
pub open spec fn acknowledged_filter(v: bool) -> AlertsQuery {
    AlertsQuery { acknowledged: Some(v), broker_id: None, metric: None }
}

/// Law: without filters, every stored alert is listed, in store order.
pub proof fn law_unfiltered_lists_all(s: Seq<FiredAlert>)
    ensures
        matching_alerts(s, no_filter()) == s,
    decreases s.len(),
{
    if s.len() > 0 {
        law_unfiltered_lists_all(s.drop_last());
        assert(s.drop_last().push(s.last()) =~= s);
    }
}

/// Law: every stored alert is listed either as acknowledged or as unacknowledged, never
/// both.
pub proof fn law_acknowledgement_partitions(s: Seq<FiredAlert>)
    ensures
        matching_alerts(s, acknowledged_filter(true)).len() + matching_alerts(
            s,
            acknowledged_filter(false),
        ).len() == s.len(),
    decreases s.len(),
{
    if s.len() > 0 {
        law_acknowledgement_partitions(s.drop_last());
    }
}

/// Law: `GET /alerts` lists exactly the stored alerts that pass each given filter by
/// equality: every listed alert is a stored one whose broker id, metric and
/// acknowledgement equal those the query gives, and every stored alert that has them is
/// listed.
pub proof fn law_alerts_listed_exactly(s: Seq<FiredAlert>, q: AlertsQuery)
    ensures
        forall|k: int|
            0 <= k < matching_alerts(s, q).len() ==> {
                let a = #[trigger] matching_alerts(s, q)[k];
                &&& s.contains(a)
                &&& q.broker_id is Some ==> a.broker_id@ == q.broker_id->Some_0@
                &&& q.metric is Some ==> a.metric@ == q.metric->Some_0@
                &&& q.acknowledged is Some ==> a.acknowledged == q.acknowledged->Some_0
            },
        forall|i: int|
            0 <= i < s.len() && (q.broker_id is Some ==> (#[trigger] s[i]).broker_id@
                == q.broker_id->Some_0@) && (q.metric is Some ==> s[i].metric@
                == q.metric->Some_0@) && (q.acknowledged is Some ==> s[i].acknowledged
                == q.acknowledged->Some_0) ==> matching_alerts(s, q).contains(s[i]),
    decreases s.len(),
{
    if s.len() > 0 {
        let p = s.drop_last();
        law_alerts_listed_exactly(p, q);
        let r = matching_alerts(s, q);
        let prev = matching_alerts(p, q);
        assert forall|k: int| 0 <= k < r.len() implies {
            let a = #[trigger] r[k];
            &&& s.contains(a)
            &&& q.broker_id is Some ==> a.broker_id@ == q.broker_id->Some_0@
            &&& q.metric is Some ==> a.metric@ == q.metric->Some_0@
            &&& q.acknowledged is Some ==> a.acknowledged == q.acknowledged->Some_0
        } by {
            if k < prev.len() {
                assert(r[k] == prev[k]);
                let j = choose|j: int| 0 <= j < p.len() && p[j] == prev[k];
                assert(s[j] == p[j]);
            } else {
                assert(r[k] == s.last());
                assert(s[s.len() - 1] == s.last());
            }
        }
        assert forall|i: int|
            0 <= i < s.len() && (q.broker_id is Some ==> (#[trigger] s[i]).broker_id@
                == q.broker_id->Some_0@) && (q.metric is Some ==> s[i].metric@
                == q.metric->Some_0@) && (q.acknowledged is Some ==> s[i].acknowledged
                == q.acknowledged->Some_0) implies r.contains(s[i]) by {
            if i < p.len() {
                assert(p[i] == s[i]);
                assert(prev.contains(s[i]));
                let j = choose|j: int| 0 <= j < prev.len() && prev[j] == s[i];
                assert(r[j] == prev[j]);
            } else {
                assert(s[i] == s.last());
                assert(alert_matches(q, s.last()));
                assert(r[prev.len() as int] == s[i]);
            }
        }
    }
}

/// The first position of an alert with the given id.
pub open spec fn first_with_id(s: Seq<FiredAlert>, id: Seq<char>, k: int) -> bool {
    &&& 0 <= k < s.len()
    &&& s[k].id@ == id
    &&& forall|j: int| 0 <= j < k ==> s[j].id@ != id
}

/// Some stored alert has the given id.
pub open spec fn has_id(s: Seq<FiredAlert>, id: Seq<char>) -> bool {
    exists|k: int| 0 <= k < s.len() && s[k].id@ == id
}

/// The same alert, marked acknowledged.
pub open spec fn acknowledged(a: FiredAlert) -> FiredAlert {
    FiredAlert { acknowledged: true, ..a }
}

/// The store after marking the first alert with the given id acknowledged (unchanged
/// when no alert has it).
pub open spec fn acknowledge_effect(s: Seq<FiredAlert>, id: Seq<char>) -> Seq<FiredAlert> {
    if has_id(s, id) {
        let k = choose|k: int| first_with_id(s, id, k);
        s.update(k, acknowledged(s[k]))
    } else {
        s
    }
}

/// There is at most one first position of an id.
proof fn lemma_first_with_id_unique(s: Seq<FiredAlert>, id: Seq<char>, i: int)
    requires
        first_with_id(s, id, i),
    ensures
        forall|k: int| first_with_id(s, id, k) ==> k == i,
        (choose|k: int| first_with_id(s, id, k)) == i,
{
    assert forall|k: int| first_with_id(s, id, k) implies k == i by {
        if k < i {
            assert(s[k].id@ != id);
        } else if k > i {
            assert(s[i].id@ != id);
        }
    }
}

/// An id that some alert has has a first position.
proof fn lemma_has_id_first(s: Seq<FiredAlert>, id: Seq<char>) -> (i: int)
    requires
        has_id(s, id),
    ensures
        first_with_id(s, id, i),
    decreases s.len(),
{
    if s[0].id@ == id {
        0
    } else {
        let k = choose|k: int| 0 <= k < s.len() && s[k].id@ == id;
        assert(s.drop_first()[k - 1].id@ == id);
        let j = lemma_has_id_first(s.drop_first(), id);
        assert forall|m: int| 0 <= m < j + 1 implies s[m].id@ != id by {
            if m > 0 {
                assert(s[m] == s.drop_first()[m - 1]);
            }
        }
        j + 1
    }
}

/// Marks the first stored alert with the given id acknowledged; says whether there was one.
pub fn acknowledge_in_store(store: &mut Vec<FiredAlert>, id: &str) -> (found: bool)
    ensures
        found == has_id(old(store)@, id@),
        final(store)@ == acknowledge_effect(old(store)@, id@),
{
    let n = store.len();
    let mut i: usize = 0;
    while i < n
        invariant
            n == store@.len(),
            i <= n,
            store@ == old(store)@,
            forall|j: int| 0 <= j < i ==> store@[j].id@ != id@,
        decreases n - i,
    {
        if same_text(store[i].id.as_str(), id) {
            let mut a = store[i].duplicate();
            a.acknowledged = true;
            store.set(i, a);
            proof {
                lemma_first_with_id_unique(old(store)@, id@, i as int);
            }
            return true;
        }
        i = i + 1;
    }
    false
}

/// Law: acknowledging twice is acknowledging once.
pub proof fn law_acknowledge_idempotent(s: Seq<FiredAlert>, id: Seq<char>)
    ensures
        acknowledge_effect(acknowledge_effect(s, id), id) == acknowledge_effect(s, id),
{
    if has_id(s, id) {
        let i = lemma_has_id_first(s, id);
        lemma_first_with_id_unique(s, id, i);
        let t = acknowledge_effect(s, id);
        assert(first_with_id(t, id, i));
        lemma_first_with_id_unique(t, id, i);
        assert(t.update(i, acknowledged(t[i])) =~= t);
    }
}

/// Law: acknowledging an id that some alert has leaves that alert acknowledged, listed
/// among the acknowledged alerts, and touches no other alert.
pub proof fn law_acknowledge_marks_only_first(s: Seq<FiredAlert>, id: Seq<char>)
    requires
        has_id(s, id),
    ensures
        exists|k: int|
            #![trigger s[k]]
            first_with_id(s, id, k) && {
                let t = acknowledge_effect(s, id);
                &&& t.len() == s.len()
                &&& t[k].acknowledged
                &&& t[k].id@ == id
                &&& alert_matches(
                    AlertsQuery { acknowledged: Some(true), broker_id: None, metric: None },
                    t[k],
                )
                &&& forall|j: int| 0 <= j < s.len() && j != k ==> t[j] == s[j]
            },
{
    let i = lemma_has_id_first(s, id);
    lemma_first_with_id_unique(s, id, i);
    assert(s[i] == s[i]);
}

/// Answer of `PATCH /alerts/{id}/acknowledge`.
pub enum AckReply {
    /// 200: the database marked the alert.
    Acknowledged(AckResponse),
    /// 404: the database has no alert with that id.
    NotFound(ErrorResponse),
    /// 500: the database update failed.
    StorageFailed(ErrorResponse),
}

impl AckReply {
    /// The HTTP status code of the answer.
    pub open spec fn status_spec(&self) -> u16 {
        match self {
            AckReply::Acknowledged(_) => 200,
            AckReply::NotFound(_) => 404,
            AckReply::StorageFailed(_) => 500,
        }
    }

    /// The HTTP status code of the answer.
    pub fn status(&self) -> (c: u16)
        ensures
            c == self.status_spec(),
    {
        match self {
            AckReply::Acknowledged(_) => 200,
            AckReply::NotFound(_) => 404,
            AckReply::StorageFailed(_) => 500,
        }
    }
}

/// `PATCH /alerts/{id}/acknowledge` after the database update: `Ok(updated)` says whether
/// the database held an alert with that id, `Err(())` that the update failed. Only a
/// successful update marks the alert in memory too.
pub fn patch_alert_acknowledge(store: &mut Vec<FiredAlert>, id: String, db_outcome: Result<
    bool,
    (),
>) -> (r: AckReply)
    ensures
        db_outcome == Ok::<bool, ()>(true) ==> {
            &&& final(store)@ == acknowledge_effect(old(store)@, id@)
            &&& r == AckReply::Acknowledged(AckResponse { id: id, acknowledged: true })
        },
        db_outcome == Ok::<bool, ()>(false) ==> {
            &&& final(store)@ == old(store)@
            &&& r is NotFound
            &&& r->NotFound_0.error@ == "no alert with id "@ + id@
        },
        db_outcome is Err ==> {
            &&& final(store)@ == old(store)@
            &&& r is StorageFailed
            &&& r->StorageFailed_0.error@ == "db error"@
        },
{
    match db_outcome {
        Ok(true) => {
            acknowledge_in_store(store, id.as_str());
            AckReply::Acknowledged(AckResponse { id, acknowledged: true })
        },
        Ok(false) => {
            let mut msg = String::from_str("no alert with id ");
            msg.append(id.as_str());
            AckReply::NotFound(ErrorResponse { error: msg })
        },
        Err(()) => AckReply::StorageFailed(ErrorResponse { error: String::from_str("db error") }),
    }
}

} // verus!
