//! Alert rules: which reading a rule looks at, how it compares, when a breach raises an
//! alert, and reloading the rule set.
use vstd::prelude::*;
use crate::cooldown::{in_cooldown, may_fire, CooldownTable};
use crate::model::{AlertRule, BrokerMetrics, ErrorResponse, FiredAlert};
use crate::text::same_text;

verus! {

/// A reading of a broker metric: a counter, or the `f64::to_bits` of a gauge.
pub enum Reading {
    Count(u64),
    Gauge(u64),
}

pub open spec fn count_reading(v: Option<u64>) -> Option<Reading> {
    match v {
        Some(x) => Some(Reading::Count(x)),
        None => None,
    }
}

pub open spec fn gauge_reading(v: Option<u64>) -> Option<Reading> {
    match v {
        Some(x) => Some(Reading::Gauge(x)),
        None => None,
    }
}

/// The reading that a rule on `metric` looks at; none for a metric without a reading or
/// of another name.
pub open spec fn metric_reading_spec(m: BrokerMetrics, metric: Seq<char>) -> Option<Reading> {
    if metric == "clients_connected"@ {
        count_reading(m.clients_connected)
    } else if metric == "messages_sent"@ {
        count_reading(m.messages_sent)
    } else if metric == "messages_received"@ {
        count_reading(m.messages_received)
    } else if metric == "bytes_sent"@ {
        count_reading(m.bytes_sent)
    } else if metric == "bytes_received"@ {
        count_reading(m.bytes_received)
    } else if metric == "cpu_percent"@ {
        gauge_reading(m.cpu_percent_bits)
    } else if metric == "mem_usage_mb"@ {
        gauge_reading(m.mem_usage_mb_bits)
    } else if metric == "net_rx_bytes"@ {
        count_reading(m.net_rx_bytes)
    } else if metric == "net_tx_bytes"@ {
        count_reading(m.net_tx_bytes)
    } else {
        None
    }
}

fn count_of(v: Option<u64>) -> (r: Option<Reading>)
    ensures
        r == count_reading(v),
{
    match v {
        Some(x) => Some(Reading::Count(x)),
        None => None,
    }
}

fn gauge_of(v: Option<u64>) -> (r: Option<Reading>)
    ensures
        r == gauge_reading(v),
{
    match v {
        Some(x) => Some(Reading::Gauge(x)),
        None => None,
    }
}

/// The reading that a rule on `metric` looks at.
pub fn metric_reading(m: &BrokerMetrics, metric: &str) -> (r: Option<Reading>)
    ensures
        r == metric_reading_spec(*m, metric@),
{
    if same_text(metric, "clients_connected") {
        count_of(m.clients_connected)
    } else if same_text(metric, "messages_sent") {
        count_of(m.messages_sent)
    } else if same_text(metric, "messages_received") {
        count_of(m.messages_received)
    } else if same_text(metric, "bytes_sent") {
        count_of(m.bytes_sent)
    } else if same_text(metric, "bytes_received") {
        count_of(m.bytes_received)
    } else if same_text(metric, "cpu_percent") {
        gauge_of(m.cpu_percent_bits)
    } else if same_text(metric, "mem_usage_mb") {
        gauge_of(m.mem_usage_mb_bits)
    } else if same_text(metric, "net_rx_bytes") {
        count_of(m.net_rx_bytes)
    } else if same_text(metric, "net_tx_bytes") {
        count_of(m.net_tx_bytes)
    } else {
        None
    }
}

/// The metric names that rules may use.
pub open spec fn is_known_metric(metric: Seq<char>) -> bool {
    ||| metric == "clients_connected"@
    ||| metric == "messages_sent"@
    ||| metric == "messages_received"@
    ||| metric == "bytes_sent"@
    ||| metric == "bytes_received"@
    ||| metric == "cpu_percent"@
    ||| metric == "mem_usage_mb"@
    ||| metric == "net_rx_bytes"@
    ||| metric == "net_tx_bytes"@
}

/// Decides `is_known_metric`, the check a rules file passes before it is loaded.
pub fn known_metric(metric: &str) -> (b: bool)
    ensures
        b == is_known_metric(metric@),
{
    same_text(metric, "clients_connected") || same_text(metric, "messages_sent") || same_text(
        metric,
        "messages_received",
    ) || same_text(metric, "bytes_sent") || same_text(metric, "bytes_received") || same_text(
        metric,
        "cpu_percent",
    ) || same_text(metric, "mem_usage_mb") || same_text(metric, "net_rx_bytes") || same_text(
        metric,
        "net_tx_bytes",
    )
}

/// `k` is the first rule of a rules file whose metric is not a known one.
pub open spec fn first_unknown_metric(rules: Seq<AlertRule>, k: int) -> bool {
    &&& 0 <= k < rules.len()
    &&& !is_known_metric(rules[k].metric@)
    &&& forall|j: int| 0 <= j < k ==> is_known_metric(#[trigger] rules[j].metric@)
}

/// The message that refuses a rules file for a rule on an unknown metric.
pub open spec fn unknown_metric_text(metric: Seq<char>, path: Seq<char>) -> Seq<char> {
    "unknown metric '"@ + metric + "' in rules file '"@ + path + "'"@
}

/// The check a rules file passes before it is put in force: every rule names a known
/// metric; otherwise the file is refused with a message on the first rule that does not.
pub fn check_rule_metrics(rules: &Vec<AlertRule>, path: &str) -> (r: Result<(), String>)
    ensures
        r is Ok <==> forall|k: int| 0 <= k < rules@.len() ==> is_known_metric(#[trigger] rules@[k].metric@),
        r is Err ==> exists|k: int|
            first_unknown_metric(rules@, k) && r->Err_0@ == unknown_metric_text(
                rules@[k].metric@,
                path@,
            ),
{
    let n = rules.len();
    let mut i: usize = 0;
    while i < n
        invariant
            n == rules@.len(),
            i <= n,
            forall|k: int| 0 <= k < i ==> is_known_metric(#[trigger] rules@[k].metric@),
        decreases n - i,
    {
        if !known_metric(rules[i].metric.as_str()) {
            let mut msg = String::from_str("unknown metric '");
            msg.append(rules[i].metric.as_str());
            msg.append("' in rules file '");
            msg.append(path);
            msg.append("'");
            assert(first_unknown_metric(rules@, i as int));
            return Err(msg);
        }
        i = i + 1;
    }
    Ok(())
}

/// Law: a rule on a metric name outside the known ones never has a reading, so it never
/// breaches; a known name always reads its own field.
pub proof fn law_unknown_metric_never_reads(m: BrokerMetrics, metric: Seq<char>)
    ensures
        !is_known_metric(metric) ==> metric_reading_spec(m, metric) is None,
        metric == "cpu_percent"@ ==> metric_reading_spec(m, metric) == gauge_reading(
            m.cpu_percent_bits,
        ),
        metric == "clients_connected"@ ==> metric_reading_spec(m, metric) == count_reading(
            m.clients_connected,
        ),
{
    reveal_strlit("clients_connected");
    reveal_strlit("messages_sent");
    reveal_strlit("messages_received");
    reveal_strlit("bytes_sent");
    reveal_strlit("bytes_received");
    reveal_strlit("cpu_percent");
    let c = "cpu_percent"@;
    assert(c.len() == 11);
    assert(c != "clients_connected"@ && c != "messages_sent"@ && c != "messages_received"@);
    assert(c != "bytes_sent"@ && c != "bytes_received"@);
}

/// Law: each of the nine metric names reads its own field of the record, as a counter or
/// (CPU and memory) as a gauge.
pub proof fn law_metric_names_read_their_fields(m: BrokerMetrics)
    ensures
        metric_reading_spec(m, "clients_connected"@) == (match m.clients_connected {
            Some(v) => Some(Reading::Count(v)),
            None => None,
        }),
        metric_reading_spec(m, "messages_sent"@) == (match m.messages_sent {
            Some(v) => Some(Reading::Count(v)),
            None => None,
        }),
        metric_reading_spec(m, "messages_received"@) == (match m.messages_received {
            Some(v) => Some(Reading::Count(v)),
            None => None,
        }),
        metric_reading_spec(m, "bytes_sent"@) == (match m.bytes_sent {
            Some(v) => Some(Reading::Count(v)),
            None => None,
        }),
        metric_reading_spec(m, "bytes_received"@) == (match m.bytes_received {
            Some(v) => Some(Reading::Count(v)),
            None => None,
        }),
        metric_reading_spec(m, "cpu_percent"@) == (match m.cpu_percent_bits {
            Some(v) => Some(Reading::Gauge(v)),
            None => None,
        }),
        metric_reading_spec(m, "mem_usage_mb"@) == (match m.mem_usage_mb_bits {
            Some(v) => Some(Reading::Gauge(v)),
            None => None,
        }),
        metric_reading_spec(m, "net_rx_bytes"@) == (match m.net_rx_bytes {
            Some(v) => Some(Reading::Count(v)),
            None => None,
        }),
        metric_reading_spec(m, "net_tx_bytes"@) == (match m.net_tx_bytes {
            Some(v) => Some(Reading::Count(v)),
            None => None,
        }),
{
    reveal_strlit("clients_connected");
    reveal_strlit("messages_sent");
    reveal_strlit("messages_received");
    reveal_strlit("bytes_sent");
    reveal_strlit("bytes_received");
    reveal_strlit("cpu_percent");
    reveal_strlit("mem_usage_mb");
    reveal_strlit("net_rx_bytes");
    reveal_strlit("net_tx_bytes");
    let n = seq![
        "clients_connected"@,
        "messages_sent"@,
        "messages_received"@,
        "bytes_sent"@,
        "bytes_received"@,
        "cpu_percent"@,
        "mem_usage_mb"@,
        "net_rx_bytes"@,
        "net_tx_bytes"@,
    ];
    assert(n[0].len() == 17 && n[1].len() == 13 && n[2].len() == 17 && n[3].len() == 10);
    assert(n[4].len() == 14 && n[5].len() == 11 && n[6].len() == 12 && n[7].len() == 12);
    assert(n[8].len() == 12);
    assert(n[0][0] != n[2][0]);
    assert(n[6][0] != n[7][0] && n[6][0] != n[8][0] && n[7][4] != n[8][4]);
    assert(n[0] != n[2] && n[6] != n[7] && n[6] != n[8] && n[7] != n[8]);
}

/// How a rule compares its reading with its threshold.
pub enum Comparison {
    /// `>`: the reading exceeds the threshold.
    Above,
    /// `<`: the reading is under the threshold.
    Below,
    /// `==`: the reading is within `f64::EPSILON` of the threshold.
    Equal,
}

/// The comparison that an operator names; none for any other operator, which never breaches.
pub open spec fn comparison_spec(op: Seq<char>) -> Option<Comparison> {
    if op == ">"@ {
        Some(Comparison::Above)
    } else if op == "<"@ {
        Some(Comparison::Below)
    } else if op == "=="@ {
        Some(Comparison::Equal)
    } else {
        None
    }
}

/// The comparison that an operator names.
pub fn comparison_of(op: &str) -> (r: Option<Comparison>)
    ensures
        r == comparison_spec(op@),
{
    if same_text(op, ">") {
        Some(Comparison::Above)
    } else if same_text(op, "<") {
        Some(Comparison::Below)
    } else if same_text(op, "==") {
        Some(Comparison::Equal)
    } else {
        None
    }
}

/// The key under which a broker's breaches of a metric cool down: `"{broker}:{metric}"`.
pub open spec fn cooldown_key_spec(broker_id: Seq<char>, metric: Seq<char>) -> Seq<char> {
    broker_id + ":"@ + metric
}

/// Law: a cooldown key is the broker id, one colon, then the metric name.
pub proof fn law_cooldown_key_shape(broker_id: Seq<char>, metric: Seq<char>)
    ensures
        cooldown_key_spec(broker_id, metric).len() == broker_id.len() + 1 + metric.len(),
        cooldown_key_spec(broker_id, metric).subrange(0, broker_id.len() as int) == broker_id,
        cooldown_key_spec(broker_id, metric)[broker_id.len() as int] == ':',
        cooldown_key_spec(broker_id, metric).subrange(
            broker_id.len() + 1 as int,
            (broker_id.len() + 1 + metric.len()) as int,
        ) == metric,
{
    reveal_strlit(":");
    let k = cooldown_key_spec(broker_id, metric);
    assert(k.subrange(0, broker_id.len() as int) =~= broker_id);
    assert(k.subrange(broker_id.len() + 1 as int, (broker_id.len() + 1 + metric.len()) as int)
        =~= metric);
}

/// `format!("{}:{}", broker_id, metric)`.
pub fn cooldown_key(broker_id: &str, metric: &str) -> (k: String)
    ensures
        k@ == cooldown_key_spec(broker_id@, metric@),
{
    let mut k = String::from_str(broker_id);
    k.append(":");
    k.append(metric);
    k
}

/// A breach of `rule` on broker `broker_id` at `now_ns`: says whether it raises an alert
/// (the pair is not cooling down) and, when it does, starts the pair's cooldown.
pub fn register_breach(
    cooldowns: &mut CooldownTable,
    broker_id: &str,
    rule: &AlertRule,
    now_ns: u64,
) -> (fire: bool)
    ensures
        fire == may_fire(
            old(cooldowns)@,
            cooldown_key_spec(broker_id@, rule.metric@),
            now_ns,
            rule.cooldown_secs,
        ),
        fire ==> final(cooldowns)@ == old(cooldowns)@.insert(
            cooldown_key_spec(broker_id@, rule.metric@),
            now_ns,
        ),
        !fire ==> final(cooldowns)@ == old(cooldowns)@,
{
    let key = cooldown_key(broker_id, rule.metric.as_str());
    cooldowns.try_fire(key, now_ns, rule.cooldown_secs)
}

/// The alert that a firing rule raises: unacknowledged, with the rule's metric, operator
/// and threshold.
pub open spec fn raised_alert(
    id: String,
    broker_id: String,
    rule: AlertRule,
    value_bits: u64,
    fired_at: i64,
) -> FiredAlert {
    FiredAlert {
        id,
        broker_id,
        metric: rule.metric,
        operator: rule.operator,
        value_bits,
        threshold_bits: rule.threshold_bits,
        fired_at,
        acknowledged: false,
    }
}

/// A breach seen during an evaluation round: a rule whose reading crossed its threshold on
/// a broker. The time and id it carries are those its alert gets if it fires.
pub struct Breach {
    pub broker_id: String,
    pub rule: AlertRule,
    /// `f64::to_bits` of the reading that crossed the threshold.
    pub value_bits: u64,
    /// When the breach was seen, on the monotonic clock of the cooldowns (nanoseconds).
    pub seen_ns: u64,
    /// When the breach was seen, in Unix seconds.
    pub fired_at: i64,
    /// The id of the alert, should the breach raise one.
    pub alert_id: String,
}

/// The cooldown key of a breach.
pub open spec fn breach_key(b: Breach) -> Seq<char> {
    cooldown_key_spec(b.broker_id@, b.rule.metric@)
}

/// A breach raises an alert against the cooldowns `table`.
pub open spec fn breach_fires(table: Map<Seq<char>, u64>, b: Breach) -> bool {
    may_fire(table, breach_key(b), b.seen_ns, b.rule.cooldown_secs)
}

/// The cooldowns after the breaches of a round, taken in order, starting from `t0`.
pub open spec fn round_table(t0: Map<Seq<char>, u64>, bs: Seq<Breach>) -> Map<Seq<char>, u64>
    decreases bs.len(),
{
    if bs.len() == 0 {
        t0
    } else {
        let t = round_table(t0, bs.drop_last());
        if breach_fires(t, bs.last()) {
            t.insert(breach_key(bs.last()), bs.last().seen_ns)
        } else {
            t
        }
    }
}

/// The `i`-th breach of a round raises an alert.
pub open spec fn round_fires(t0: Map<Seq<char>, u64>, bs: Seq<Breach>, i: int) -> bool {
    breach_fires(round_table(t0, bs.take(i)), bs[i])
}

/// The alerts that the breaches of a round raise, in order.
pub open spec fn round_alerts(t0: Map<Seq<char>, u64>, bs: Seq<Breach>) -> Seq<FiredAlert>
    decreases bs.len(),
{
    if bs.len() == 0 {
        Seq::empty()
    } else {
        let prev = round_alerts(t0, bs.drop_last());
        let b = bs.last();
        if breach_fires(round_table(t0, bs.drop_last()), b) {
            prev.push(raised_alert(b.alert_id, b.broker_id, b.rule, b.value_bits, b.fired_at))
        } else {
            prev
        }
    }
}

/// One evaluation round after the readings have been compared with the thresholds: takes
/// the breaches in the order they were found (brokers, then rules), starts the cooldown of
/// each one that is not cooling down, and hands back the alerts they raise, in order.
pub fn decide_round(cooldowns: &mut CooldownTable, breaches: Vec<Breach>) -> (fired: Vec<FiredAlert>)
    ensures
        final(cooldowns)@ == round_table(old(cooldowns)@, breaches@),
        fired@ == round_alerts(old(cooldowns)@, breaches@),
{
    let ghost t0 = cooldowns@;
    let ghost orig = breaches@;
    let n = breaches.len();
    let mut rest = breaches;
    let mut fired: Vec<FiredAlert> = Vec::new();
    let mut done: usize = 0;
    assert(orig.take(0) =~= Seq::<Breach>::empty());
    assert(orig.subrange(0, n as int) =~= orig);
    while done < n
        invariant
            n == orig.len(),
            done <= n,
            rest@ == orig.subrange(done as int, n as int),
            cooldowns@ == round_table(t0, orig.take(done as int)),
            fired@ == round_alerts(t0, orig.take(done as int)),
        decreases n - done,
    {
        let ghost rest0 = rest@;
        let b = rest.remove(0);
        assert(rest0[0] == orig[done as int]);
        assert(orig.take(done + 1).drop_last() =~= orig.take(done as int));
        assert(orig.take(done + 1).last() == b);
        let fire = register_breach(cooldowns, b.broker_id.as_str(), &b.rule, b.seen_ns);
        if fire {
            let Breach { broker_id, rule, value_bits, seen_ns: _, fired_at, alert_id } = b;
            let a = FiredAlert {
                id: alert_id,
                broker_id,
                metric: rule.metric,
                operator: rule.operator,
                value_bits,
                threshold_bits: rule.threshold_bits,
                fired_at,
                acknowledged: false,
            };
            fired.push(a);
        }
        assert(rest@ =~= orig.subrange(done + 1, n as int));
        done = done + 1;
    }
    assert(orig.take(n as int) =~= orig);
    fired
}

/// Appends the alerts of a round to the store, after what it held.
pub fn append_alerts(store: &mut Vec<FiredAlert>, alerts: Vec<FiredAlert>)
    ensures
        final(store)@ == old(store)@ + alerts@,
{
    let mut alerts = alerts;
    store.append(&mut alerts);
}

/// While a key is not refired, the cooldowns hold for it a firing time between the time
/// of a firing `i` and that of the latest breach taken.
proof fn lemma_round_keeps_firing(t0: Map<Seq<char>, u64>, bs: Seq<Breach>, i: int, m: int)
    requires
        0 <= i < m <= bs.len(),
        round_fires(t0, bs, i),
        forall|a: int, b: int| i <= a <= b < m ==> bs[a].seen_ns <= bs[b].seen_ns,
    ensures
        round_table(t0, bs.take(m)).contains_key(breach_key(bs[i])),
        bs[i].seen_ns <= round_table(t0, bs.take(m))[breach_key(bs[i])] <= bs[m - 1].seen_ns,
    decreases m,
{
    assert(bs.take(m).drop_last() =~= bs.take(m - 1));
    assert(bs.take(m).last() == bs[m - 1]);
    if m > i + 1 {
        lemma_round_keeps_firing(t0, bs, i, m - 1);
        assert(bs[m - 2].seen_ns <= bs[m - 1].seen_ns);
        assert(bs[i].seen_ns <= bs[m - 1].seen_ns);
    }
}

/// Law: the moment a breach fires, the cooldowns record it under its broker and metric.
pub proof fn law_round_records_firing(t0: Map<Seq<char>, u64>, bs: Seq<Breach>, i: int)
    requires
        0 <= i < bs.len(),
        round_fires(t0, bs, i),
    ensures
        round_table(t0, bs.take(i + 1)) == round_table(t0, bs.take(i)).insert(
            breach_key(bs[i]),
            bs[i].seen_ns,
        ),
{
    assert(bs.take(i + 1).drop_last() =~= bs.take(i));
    assert(bs.take(i + 1).last() == bs[i]);
}

/// Law: within a round whose clock does not run backwards, two firings of one broker and
/// metric are at least the later rule's cooldown apart.
pub proof fn law_round_firings_spaced(t0: Map<Seq<char>, u64>, bs: Seq<Breach>, i: int, j: int)
    requires
        0 <= i < j < bs.len(),
        breach_key(bs[i]) == breach_key(bs[j]),
        round_fires(t0, bs, i),
        round_fires(t0, bs, j),
        forall|a: int, b: int| i <= a <= b <= j ==> bs[a].seen_ns <= bs[b].seen_ns,
    ensures
        (bs[j].seen_ns - bs[i].seen_ns) / 1_000_000_000 >= bs[j].rule.cooldown_secs,
{
    lemma_round_keeps_firing(t0, bs, i, j);
    let k = breach_key(bs[i]);
    let v = round_table(t0, bs.take(j))[k];
    assert(bs[j - 1].seen_ns <= bs[j].seen_ns);
    assert(!in_cooldown(v, bs[j].seen_ns, bs[j].rule.cooldown_secs));
    vstd::arithmetic::div_mod::lemma_div_is_ordered(
        bs[j].seen_ns - v,
        bs[j].seen_ns - bs[i].seen_ns,
        1_000_000_000,
    );
}

/// Rounds run one after the other on one table are one round over all their breaches:
/// the same cooldowns and the same alerts, in order.
pub proof fn law_rounds_compose(t0: Map<Seq<char>, u64>, a: Seq<Breach>, b: Seq<Breach>)
    ensures
        round_table(round_table(t0, a), b) == round_table(t0, a + b),
        round_alerts(t0, a + b) == round_alerts(t0, a) + round_alerts(round_table(t0, a), b),
    decreases b.len(),
{
    if b.len() == 0 {
        assert(a + b =~= a);
        assert(round_alerts(t0, a) + round_alerts(round_table(t0, a), b) =~= round_alerts(t0, a));
    } else {
        law_rounds_compose(t0, a, b.drop_last());
        assert((a + b).drop_last() =~= a + b.drop_last());
        assert((a + b).last() == b.last());
        assert(round_alerts(t0, a + b) =~= round_alerts(t0, a) + round_alerts(
            round_table(t0, a),
            b,
        ));
    }
}

/// Law: across successive rounds that share one cooldown table (no reload between them),
/// and while the clock does not run backwards, a firing `i` of one round and a later
/// firing `j` of the next round of the same broker and metric are at least the later
/// rule's cooldown apart. Any rounds between them count as part of the first (see
/// `law_rounds_compose`).
pub proof fn law_firings_spaced_across_rounds(
    t0: Map<Seq<char>, u64>,
    a: Seq<Breach>,
    b: Seq<Breach>,
    i: int,
    j: int,
)
    requires
        0 <= i < a.len(),
        0 <= j < b.len(),
        breach_key(a[i]) == breach_key(b[j]),
        round_fires(t0, a, i),
        round_fires(round_table(t0, a), b, j),
        forall|x: int, y: int|
            i <= x <= y < a.len() + j + 1 ==> (#[trigger] (a + b)[x]).seen_ns <= (#[trigger] (a
                + b)[y]).seen_ns,
    ensures
        (b[j].seen_ns - a[i].seen_ns) / 1_000_000_000 >= b[j].rule.cooldown_secs,
{
    let ab = a + b;
    let n = a.len() as int;
    assert(ab.take(i) =~= a.take(i));
    assert(ab[i] == a[i]);
    assert(round_fires(t0, ab, i));
    assert(ab.take(n + j) =~= a + b.take(j));
    law_rounds_compose(t0, a, b.take(j));
    assert(ab[n + j] == b[j]);
    assert(round_fires(t0, ab, n + j));
    law_round_firings_spaced(t0, ab, i, n + j);
}

/// Law: every alert a round raises is the unacknowledged alert of one of its breaches
/// that fired; with `append_alerts`, a round only adds alerts behind those already stored.
pub proof fn law_round_alerts_from_breaches(t0: Map<Seq<char>, u64>, bs: Seq<Breach>)
    ensures
        forall|k: int|
            0 <= k < round_alerts(t0, bs).len() ==> {
                &&& !(#[trigger] round_alerts(t0, bs)[k]).acknowledged
                &&& exists|i: int|
                    0 <= i < bs.len() && round_fires(t0, bs, i) && round_alerts(t0, bs)[k]
                        == raised_alert(
                        bs[i].alert_id,
                        bs[i].broker_id,
                        bs[i].rule,
                        bs[i].value_bits,
                        bs[i].fired_at,
                    )
            },
    decreases bs.len(),
{
    if bs.len() > 0 {
        let p = bs.drop_last();
        law_round_alerts_from_breaches(t0, p);
        let n = bs.len() - 1;
        assert(bs.take(n) =~= p);
        let r = round_alerts(t0, bs);
        let q = round_alerts(t0, p);
        assert forall|k: int| 0 <= k < r.len() implies {
            &&& !(#[trigger] r[k]).acknowledged
            &&& exists|i: int|
                0 <= i < bs.len() && round_fires(t0, bs, i) && r[k] == raised_alert(
                    bs[i].alert_id,
                    bs[i].broker_id,
                    bs[i].rule,
                    bs[i].value_bits,
                    bs[i].fired_at,
                )
        } by {
            if k < q.len() {
                assert(r[k] == q[k]);
                let i = choose|i: int|
                    0 <= i < p.len() && round_fires(t0, p, i) && q[k] == raised_alert(
                        p[i].alert_id,
                        p[i].broker_id,
                        p[i].rule,
                        p[i].value_bits,
                        p[i].fired_at,
                    );
                assert(p.take(i) =~= bs.take(i));
                assert(p[i] == bs[i]);
                assert(round_fires(t0, bs, i));
                assert(r[k] == raised_alert(
                    bs[i].alert_id,
                    bs[i].broker_id,
                    bs[i].rule,
                    bs[i].value_bits,
                    bs[i].fired_at,
                ));
            } else {
                assert(breach_fires(round_table(t0, p), bs.last()));
                assert(round_fires(t0, bs, n));
                assert(r[k] == raised_alert(
                    bs[n].alert_id,
                    bs[n].broker_id,
                    bs[n].rule,
                    bs[n].value_bits,
                    bs[n].fired_at,
                ));
            }
        }
    }
}

/// An alert carries, field by field, what a breach saw: the breach's alert id and broker,
/// its rule's metric, operator and threshold, the breaching reading and the time; and it
/// is unacknowledged.
pub open spec fn alert_carries(a: FiredAlert, b: Breach) -> bool {
    &&& a.id == b.alert_id
    &&& a.broker_id == b.broker_id
    &&& a.metric == b.rule.metric
    &&& a.operator == b.rule.operator
    &&& a.value_bits == b.value_bits
    &&& a.threshold_bits == b.rule.threshold_bits
    &&& a.fired_at == b.fired_at
    &&& !a.acknowledged
}

/// Some firing breach of the round raised the `k`-th alert and the alert carries what it saw.
pub open spec fn raised_by_firing(t0: Map<Seq<char>, u64>, bs: Seq<Breach>, a: FiredAlert) -> bool {
    exists|i: int| 0 <= i < bs.len() && round_fires(t0, bs, i) && #[trigger] alert_carries(a, bs[i])
}

/// Law: every alert a round raises carries what the firing breach that raised it saw,
/// the breaching reading among it.
pub proof fn law_round_alert_fields(t0: Map<Seq<char>, u64>, bs: Seq<Breach>)
    ensures
        forall|k: int|
            0 <= k < round_alerts(t0, bs).len() ==> raised_by_firing(
                t0,
                bs,
                #[trigger] round_alerts(t0, bs)[k],
            ),
{
    law_round_alerts_from_breaches(t0, bs);
    assert forall|k: int| 0 <= k < round_alerts(t0, bs).len() implies raised_by_firing(
        t0,
        bs,
        #[trigger] round_alerts(t0, bs)[k],
    ) by {
        assert(!round_alerts(t0, bs)[k].acknowledged);
        let i = choose|i: int|
            0 <= i < bs.len() && round_fires(t0, bs, i) && round_alerts(t0, bs)[k]
                == raised_alert(
                bs[i].alert_id,
                bs[i].broker_id,
                bs[i].rule,
                bs[i].value_bits,
                bs[i].fired_at,
            );
        assert(alert_carries(round_alerts(t0, bs)[k], bs[i]));
    }
}

/// Answer of `POST /reload`.
pub enum ReloadReply {
    /// 200: the new rules are in force.
    Reloaded { count: usize },
    /// 400: the rules file was refused; the old rules stay.
    Rejected(ErrorResponse),
}

impl ReloadReply {
    pub open spec fn status_spec(&self) -> u16 {
        match self {
            ReloadReply::Reloaded { .. } => 200,
            ReloadReply::Rejected(_) => 400,
        }
    }

    /// The HTTP status code of the answer.
    pub fn status(&self) -> (c: u16)
        ensures
            c == self.status_spec(),
    {
        match self {
            ReloadReply::Reloaded { .. } => 200,
            ReloadReply::Rejected(_) => 400,
        }
    }
}

/// `POST /reload` once the rules file has been read: `Ok(rules)` puts them in force and
/// forgets every cooldown; `Err(message)` keeps the rules and the cooldowns as they were.
pub fn post_reload(
    rules: &mut Vec<AlertRule>,
    cooldowns: &mut CooldownTable,
    loaded: Result<Vec<AlertRule>, String>,
) -> (r: ReloadReply)
    ensures
        match loaded {
            Ok(new_rules) => {
                &&& final(rules)@ == new_rules@
                &&& final(cooldowns)@ == Map::<Seq<char>, u64>::empty()
                &&& r == ReloadReply::Reloaded { count: new_rules@.len() as usize }
            },
            Err(message) => {
                &&& final(rules)@ == old(rules)@
                &&& final(cooldowns)@ == old(cooldowns)@
                &&& r == ReloadReply::Rejected(ErrorResponse { error: message })
            },
        },
{
    match loaded {
        Ok(new_rules) => {
            let count = new_rules.len();
            *rules = new_rules;
            cooldowns.clear();
            ReloadReply::Reloaded { count }
        },
        Err(message) => ReloadReply::Rejected(ErrorResponse { error: message }),
    }
}

} // verus!
