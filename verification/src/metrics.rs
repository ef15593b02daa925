//! Broker metrics: folding `$SYS` updates into a broker's record, and the answers of
//! `GET /metrics` and `GET /brokers`.
use vstd::prelude::*;
use crate::collate::{
    lemma_map_values_multiset, lemma_sorted_unique, named, sort_by_name, sorted_by_name, Named,
};
use crate::model::{BrokerMetrics, BrokerMetricsResponse, BrokersEnvelope, MetricsEnvelope};
use crate::text::{
    decimal, law_parse_reads_decimal, lemma_decimal_digits,
    lemma_digits_untrimmed, parse_u64, parse_u64_spec, same_text, trim, trimmed,
};

verus! {

impl Named for BrokerMetricsResponse {
    open spec fn name_view(&self) -> Seq<char> {
        self.broker_id@
    }

    fn name_str(&self) -> (r: &str) {
        self.broker_id.as_str()
    }
}

/// A broker's figures are stale when it never reported, or its last report is more than
/// `threshold` seconds old.
pub open spec fn is_stale(last_updated_secs: Option<i64>, now_secs: i64, threshold_secs: i64) -> bool {
    match last_updated_secs {
        Some(ts) => now_secs - ts > threshold_secs,
        None => true,
    }
}

/// The answer entry for one broker.
pub open spec fn metrics_response(
    broker_id: String,
    m: BrokerMetrics,
    now_secs: i64,
    threshold_secs: i64,
) -> BrokerMetricsResponse {
    BrokerMetricsResponse {
        broker_id,
        clients_connected: m.clients_connected,
        messages_sent: m.messages_sent,
        messages_received: m.messages_received,
        bytes_sent: m.bytes_sent,
        bytes_received: m.bytes_received,
        cpu_percent_bits: m.cpu_percent_bits,
        mem_usage_mb_bits: m.mem_usage_mb_bits,
        net_rx_bytes: m.net_rx_bytes,
        net_tx_bytes: m.net_tx_bytes,
        last_updated_secs: m.last_updated_secs,
        stale: is_stale(m.last_updated_secs, now_secs, threshold_secs),
        mqtt_online: m.mqtt_online,
        docker_online: m.docker_online,
        online: m.mqtt_online && m.docker_online,
    }
}

/// The answer entries for a list of brokers, in list order.
pub open spec fn metrics_responses(
    entries: Seq<(String, BrokerMetrics)>,
    now_secs: i64,
    threshold_secs: i64,
) -> Seq<BrokerMetricsResponse> {
    entries.map_values(|e: (String, BrokerMetrics)| metrics_response(e.0, e.1, now_secs, threshold_secs))
}

fn respond(broker_id: String, m: BrokerMetrics, now_secs: i64, threshold_secs: i64) -> (r:
    BrokerMetricsResponse)
    ensures
        r == metrics_response(broker_id, m, now_secs, threshold_secs),
{
    let stale = match m.last_updated_secs {
        Some(ts) => (now_secs as i128) - (ts as i128) > threshold_secs as i128,
        None => true,
    };
    BrokerMetricsResponse {
        broker_id,
        clients_connected: m.clients_connected,
        messages_sent: m.messages_sent,
        messages_received: m.messages_received,
        bytes_sent: m.bytes_sent,
        bytes_received: m.bytes_received,
        cpu_percent_bits: m.cpu_percent_bits,
        mem_usage_mb_bits: m.mem_usage_mb_bits,
        net_rx_bytes: m.net_rx_bytes,
        net_tx_bytes: m.net_tx_bytes,
        last_updated_secs: m.last_updated_secs,
        stale,
        mqtt_online: m.mqtt_online,
        docker_online: m.docker_online,
        online: m.mqtt_online && m.docker_online,
    }
}

/// An answer entry reports a broker's record as it is: the id, every counter, gauge, time
/// and link flag unchanged; stale when the record has no update time or its last update is
/// more than `threshold` seconds before `now`; online when both links are up.
pub open spec fn reports_record(
    r: BrokerMetricsResponse,
    broker_id: String,
    m: BrokerMetrics,
    now_secs: i64,
    threshold_secs: i64,
) -> bool {
    &&& r.broker_id == broker_id
    &&& r.clients_connected == m.clients_connected
    &&& r.messages_sent == m.messages_sent
    &&& r.messages_received == m.messages_received
    &&& r.bytes_sent == m.bytes_sent
    &&& r.bytes_received == m.bytes_received
    &&& r.cpu_percent_bits == m.cpu_percent_bits
    &&& r.mem_usage_mb_bits == m.mem_usage_mb_bits
    &&& r.net_rx_bytes == m.net_rx_bytes
    &&& r.net_tx_bytes == m.net_tx_bytes
    &&& r.last_updated_secs == m.last_updated_secs
    &&& r.stale == (m.last_updated_secs is None || now_secs - m.last_updated_secs->Some_0
        > threshold_secs)
    &&& r.mqtt_online == m.mqtt_online
    &&& r.docker_online == m.docker_online
    &&& r.online == (m.mqtt_online && m.docker_online)
}

/// Law: the `i`-th answer entry built from a list of brokers reports the `i`-th record as
/// it is.
pub proof fn law_metrics_entries_report_records(
    entries: Seq<(String, BrokerMetrics)>,
    now_secs: i64,
    threshold_secs: i64,
)
    ensures
        metrics_responses(entries, now_secs, threshold_secs).len() == entries.len(),
        forall|i: int|
            0 <= i < entries.len() ==> reports_record(
                #[trigger] metrics_responses(entries, now_secs, threshold_secs)[i],
                entries[i].0,
                entries[i].1,
                now_secs,
                threshold_secs,
            ),
{
}

/// The entry reports one of the brokers' records as it is.
pub open spec fn reports_some_record(
    entries: Seq<(String, BrokerMetrics)>,
    now_secs: i64,
    threshold_secs: i64,
    r: BrokerMetricsResponse,
) -> bool {
    exists|i: int|
        0 <= i < entries.len() && #[trigger] reports_record(
            r,
            entries[i].0,
            entries[i].1,
            now_secs,
            threshold_secs,
        )
}

/// Some entry of the answer reports the record as it is.
pub open spec fn reported_by_some_entry(
    r: Seq<BrokerMetricsResponse>,
    broker_id: String,
    m: BrokerMetrics,
    now_secs: i64,
    threshold_secs: i64,
) -> bool {
    exists|k: int| 0 <= k < r.len() && #[trigger] reports_record(r[k], broker_id, m, now_secs, threshold_secs)
}

/// Law: every entry of a `GET /metrics` answer (as `get_metrics` states it) reports one
/// broker's record of the store as it is, and every record is reported by some entry.
pub proof fn law_metrics_answer_reports_records(
    entries: Seq<(String, BrokerMetrics)>,
    now_secs: i64,
    threshold_secs: i64,
    r: Seq<BrokerMetricsResponse>,
)
    requires
        r.to_multiset() == metrics_responses(entries, now_secs, threshold_secs).to_multiset(),
    ensures
        forall|k: int|
            0 <= k < r.len() ==> reports_some_record(entries, now_secs, threshold_secs, #[trigger] r[k]),
        forall|i: int|
            0 <= i < entries.len() ==> reported_by_some_entry(
                r,
                (#[trigger] entries[i]).0,
                entries[i].1,
                now_secs,
                threshold_secs,
            ),
{
    broadcast use vstd::seq_lib::group_to_multiset_ensures;

    let f = metrics_responses(entries, now_secs, threshold_secs);
    law_metrics_entries_report_records(entries, now_secs, threshold_secs);
    assert forall|k: int| 0 <= k < r.len() implies reports_some_record(
        entries,
        now_secs,
        threshold_secs,
        #[trigger] r[k],
    ) by {
        assert(r.contains(r[k]));
        assert(r.to_multiset().count(r[k]) > 0);
        assert(f.to_multiset().count(r[k]) > 0);
        assert(f.contains(r[k]));
        let i = choose|i: int| 0 <= i < f.len() && f[i] == r[k];
        assert(reports_record(f[i], entries[i].0, entries[i].1, now_secs, threshold_secs));
    }
    assert forall|i: int| 0 <= i < entries.len() implies reported_by_some_entry(
        r,
        (#[trigger] entries[i]).0,
        entries[i].1,
        now_secs,
        threshold_secs,
    ) by {
        assert(f.contains(f[i]));
        assert(f.to_multiset().count(f[i]) > 0);
        assert(r.to_multiset().count(f[i]) > 0);
        assert(r.contains(f[i]));
        let k = choose|k: int| 0 <= k < r.len() && r[k] == f[i];
        assert(reports_record(r[k], entries[i].0, entries[i].1, now_secs, threshold_secs));
    }
}

/// `GET /metrics`: one entry per broker of the store (handed over in any order), sorted by
/// broker id, with the count.
pub fn get_metrics(entries: Vec<(String, BrokerMetrics)>, now_secs: i64, threshold_secs: i64) -> (r:
    MetricsEnvelope)
    ensures
        r.brokers@.to_multiset() == metrics_responses(entries@, now_secs, threshold_secs).to_multiset(),
        sorted_by_name(r.brokers@),
        forall|n: Seq<char>|
            #[trigger] named(r.brokers@, n) == named(metrics_responses(entries@, now_secs, threshold_secs), n),
        r.count == r.brokers@.len(),
{
    let ghost orig = entries@;
    let n = entries.len();
    let mut rest = entries;
    let mut out: Vec<BrokerMetricsResponse> = Vec::new();
    let mut k: usize = 0;
    assert(orig.subrange(0, 0).map_values(
        |e: (String, BrokerMetrics)| metrics_response(e.0, e.1, now_secs, threshold_secs),
    ) =~= out@);
    assert(orig.subrange(0, n as int) =~= orig);
    while k < n
        invariant
            n == orig.len(),
            k <= n,
            rest@ == orig.subrange(k as int, n as int),
            out@ == orig.subrange(0, k as int).map_values(
                |e: (String, BrokerMetrics)| metrics_response(e.0, e.1, now_secs, threshold_secs),
            ),
        decreases n - k,
    {
        let ghost rest0 = rest@;
        let (id, m) = rest.remove(0);
        assert(rest0[0] == orig[k as int]);
        out.push(respond(id, m, now_secs, threshold_secs));
        assert(rest@ =~= orig.subrange(k + 1, n as int));
        assert(out@ =~= orig.subrange(0, k + 1).map_values(
            |e: (String, BrokerMetrics)| metrics_response(e.0, e.1, now_secs, threshold_secs),
        ));
        k = k + 1;
    }
    assert(orig.subrange(0, n as int) =~= orig);
    assert(out@ =~= metrics_responses(orig, now_secs, threshold_secs));
    let brokers = sort_by_name(out);
    let count = brokers.len();
    MetricsEnvelope { brokers, count }
}

/// `GET /brokers`: the registered broker ids sorted, with the count.
pub fn get_brokers(ids: Vec<String>) -> (r: BrokersEnvelope)
    ensures
        r.brokers@.to_multiset() == ids@.to_multiset(),
        sorted_by_name(r.brokers@),
        forall|n: Seq<char>| #[trigger] named(r.brokers@, n) == named(ids@, n),
        r.count == r.brokers@.len(),
{
    let brokers = sort_by_name(ids);
    let count = brokers.len();
    BrokersEnvelope { brokers, count }
}


/// The `$SYS` topics whose payload updates a counter.
pub enum SysTopic {
    ClientsConnected,
    MessagesSent,
    MessagesReceived,
    BytesSent,
    BytesReceived,
}

/// The counter that a topic updates; none for any other topic.
pub open spec fn sys_topic_spec(topic: Seq<char>) -> Option<SysTopic> {
    if topic == "$SYS/broker/clients/connected"@ {
        Some(SysTopic::ClientsConnected)
    } else if topic == "$SYS/broker/messages/sent"@ {
        Some(SysTopic::MessagesSent)
    } else if topic == "$SYS/broker/messages/received"@ {
        Some(SysTopic::MessagesReceived)
    } else if topic == "$SYS/broker/bytes/sent"@ {
        Some(SysTopic::BytesSent)
    } else if topic == "$SYS/broker/bytes/received"@ {
        Some(SysTopic::BytesReceived)
    } else {
        None
    }
}

/// The counter that a topic updates.
pub fn sys_topic(topic: &str) -> (r: Option<SysTopic>)
    ensures
        r == sys_topic_spec(topic@),
{
    if same_text(topic, "$SYS/broker/clients/connected") {
        Some(SysTopic::ClientsConnected)
    } else if same_text(topic, "$SYS/broker/messages/sent") {
        Some(SysTopic::MessagesSent)
    } else if same_text(topic, "$SYS/broker/messages/received") {
        Some(SysTopic::MessagesReceived)
    } else if same_text(topic, "$SYS/broker/bytes/sent") {
        Some(SysTopic::BytesSent)
    } else if same_text(topic, "$SYS/broker/bytes/received") {
        Some(SysTopic::BytesReceived)
    } else {
        None
    }
}

/// A broker's record after a publish on `topic` at `now`: the host is refreshed, the
/// counter that the topic names (if any) becomes the payload read as a `u64` after
/// trimming (none when it does not read as one), and the update time is `now`.
pub open spec fn after_publish(
    m: BrokerMetrics,
    host: String,
    topic: Seq<char>,
    payload: Seq<char>,
    now_secs: i64,
) -> BrokerMetrics {
    let v = parse_u64_spec(trimmed(payload));
    let base = BrokerMetrics { broker_host: host, last_updated_secs: Some(now_secs), ..m };
    match sys_topic_spec(topic) {
        Some(SysTopic::ClientsConnected) => BrokerMetrics { clients_connected: v, ..base },
        Some(SysTopic::MessagesSent) => BrokerMetrics { messages_sent: v, ..base },
        Some(SysTopic::MessagesReceived) => BrokerMetrics { messages_received: v, ..base },
        Some(SysTopic::BytesSent) => BrokerMetrics { bytes_sent: v, ..base },
        Some(SysTopic::BytesReceived) => BrokerMetrics { bytes_received: v, ..base },
        None => base,
    }
}

/// Folds an incoming `$SYS` publish into a broker's record.
pub fn apply_publish(m: &mut BrokerMetrics, host: String, topic: &str, payload: &str, now_secs: i64)
    ensures
        *final(m) == after_publish(*old(m), host, topic@, payload@, now_secs),
{
    m.broker_host = host;
    match sys_topic(topic) {
        Some(SysTopic::ClientsConnected) => {
            m.clients_connected = parse_u64(trim(payload));
        },
        Some(SysTopic::MessagesSent) => {
            m.messages_sent = parse_u64(trim(payload));
        },
        Some(SysTopic::MessagesReceived) => {
            m.messages_received = parse_u64(trim(payload));
        },
        Some(SysTopic::BytesSent) => {
            m.bytes_sent = parse_u64(trim(payload));
        },
        Some(SysTopic::BytesReceived) => {
            m.bytes_received = parse_u64(trim(payload));
        },
        None => {},
    }
    m.last_updated_secs = Some(now_secs);
}

/// Records whether the agent's MQTT session with the broker is up (after subscribing, or
/// after losing the connection), refreshing the host.
pub fn mark_connection(m: &mut BrokerMetrics, host: String, online: bool)
    ensures
        *final(m) == (BrokerMetrics { broker_host: host, mqtt_online: online, ..*old(m) }),
{
    m.broker_host = host;
    m.mqtt_online = online;
}

/// Law: a counter published in decimal, with any surrounding whitespace, is read back
/// exactly, and the other counters keep their values.
pub proof fn law_publish_reads_counter(
    m: BrokerMetrics,
    host: String,
    n: u64,
    now_secs: i64,
)
    ensures
        ({
            let after = after_publish(m, host, "$SYS/broker/clients/connected"@, decimal(n as nat), now_secs);
            &&& after.clients_connected == Some(n)
            &&& after.messages_sent == m.messages_sent
            &&& after.bytes_sent == m.bytes_sent
            &&& after.last_updated_secs == Some(now_secs)
        }),
{
    lemma_decimal_digits(n as nat);
    lemma_digits_untrimmed(decimal(n as nat));
    law_parse_reads_decimal(n);
}

/// Law: a counter that a broker publishes is what `GET /metrics` then reports for it, and
/// the broker counts as fresh exactly while the publish is at most `threshold` seconds old.
pub proof fn law_published_counter_is_served(
    m: BrokerMetrics,
    broker_id: String,
    host: String,
    n: u64,
    published_secs: i64,
    now_secs: i64,
    threshold_secs: i64,
)
    ensures
        ({
            let after = after_publish(m, host, "$SYS/broker/clients/connected"@, decimal(n as nat), published_secs);
            let served = metrics_response(broker_id, after, now_secs, threshold_secs);
            &&& served.clients_connected == Some(n)
            &&& served.broker_id == broker_id
            &&& served.stale == (now_secs - published_secs > threshold_secs)
        }),
{
    law_publish_reads_counter(m, host, n, published_secs);
}

/// The record of a broker that nothing has been heard of yet (what `BrokerMetrics::new`
/// gives, but for the identity of its empty host text).
pub open spec fn is_fresh_record(m: BrokerMetrics) -> bool {
    &&& m.broker_host@ == Seq::<char>::empty()
    &&& m.clients_connected is None
    &&& m.messages_sent is None
    &&& m.messages_received is None
    &&& m.bytes_sent is None
    &&& m.bytes_received is None
    &&& m.cpu_percent_bits is None
    &&& m.mem_usage_mb_bits is None
    &&& m.net_rx_bytes is None
    &&& m.net_tx_bytes is None
    &&& m.last_updated_secs is None
    &&& !m.mqtt_online
    &&& !m.docker_online
}

/// The metrics store, by broker id, after a broker's MQTT task folds a publish into its
/// own entry (`entry(id).or_insert_with(BrokerMetrics::new)`, then `apply_publish`).
pub open spec fn store_after_publish(
    store: Map<Seq<char>, BrokerMetrics>,
    broker_id: Seq<char>,
    fresh: BrokerMetrics,
    host: String,
    topic: Seq<char>,
    payload: Seq<char>,
    now_secs: i64,
) -> Map<Seq<char>, BrokerMetrics> {
    let current = if store.contains_key(broker_id) {
        store[broker_id]
    } else {
        fresh
    };
    store.insert(broker_id, after_publish(current, host, topic, payload, now_secs))
}

/// Law: a broker's MQTT task changes no other broker's entry, and in its own entry never
/// the gauges (CPU, memory), the network counters or the Docker state.
pub proof fn law_publish_touches_own_entry_only(
    store: Map<Seq<char>, BrokerMetrics>,
    broker_id: Seq<char>,
    fresh: BrokerMetrics,
    host: String,
    topic: Seq<char>,
    payload: Seq<char>,
    now_secs: i64,
)
    requires
        is_fresh_record(fresh),
    ensures
        ({
            let after = store_after_publish(store, broker_id, fresh, host, topic, payload, now_secs);
            &&& after.dom() == store.dom().insert(broker_id)
            &&& forall|k: Seq<char>|
                k != broker_id && #[trigger] store.contains_key(k) ==> after[k] == store[k]
            &&& store.contains_key(broker_id) ==> {
                let before = store[broker_id];
                &&& after[broker_id].cpu_percent_bits == before.cpu_percent_bits
                &&& after[broker_id].mem_usage_mb_bits == before.mem_usage_mb_bits
                &&& after[broker_id].net_rx_bytes == before.net_rx_bytes
                &&& after[broker_id].net_tx_bytes == before.net_tx_bytes
                &&& after[broker_id].docker_online == before.docker_online
            }
            &&& !store.contains_key(broker_id) ==> {
                &&& after[broker_id].cpu_percent_bits is None
                &&& after[broker_id].mem_usage_mb_bits is None
                &&& after[broker_id].net_rx_bytes is None
                &&& after[broker_id].net_tx_bytes is None
                &&& !after[broker_id].docker_online
            }
        }),
{
    let after = store_after_publish(store, broker_id, fresh, host, topic, payload, now_secs);
    assert(after.dom() =~= store.dom().insert(broker_id));
}

/// Law: whatever the topic and payload, a publish stamps the record with the host and the
/// time of the publish; each of the five counters becomes the trimmed payload read as a
/// `u64` exactly when the topic is that counter's `$SYS` topic, and keeps its value
/// otherwise; gauges, network counters and link flags never change.
pub proof fn law_publish_effect(
    m: BrokerMetrics,
    host: String,
    topic: Seq<char>,
    payload: Seq<char>,
    now_secs: i64,
)
    ensures
        ({
            let a = after_publish(m, host, topic, payload, now_secs);
            let v = parse_u64_spec(trimmed(payload));
            &&& a.broker_host == host
            &&& a.last_updated_secs == Some(now_secs)
            &&& a.clients_connected == (if topic == "$SYS/broker/clients/connected"@ {
                v
            } else {
                m.clients_connected
            })
            &&& a.messages_sent == (if topic == "$SYS/broker/messages/sent"@ {
                v
            } else {
                m.messages_sent
            })
            &&& a.messages_received == (if topic == "$SYS/broker/messages/received"@ {
                v
            } else {
                m.messages_received
            })
            &&& a.bytes_sent == (if topic == "$SYS/broker/bytes/sent"@ {
                v
            } else {
                m.bytes_sent
            })
            &&& a.bytes_received == (if topic == "$SYS/broker/bytes/received"@ {
                v
            } else {
                m.bytes_received
            })
            &&& a.cpu_percent_bits == m.cpu_percent_bits
            &&& a.mem_usage_mb_bits == m.mem_usage_mb_bits
            &&& a.net_rx_bytes == m.net_rx_bytes
            &&& a.net_tx_bytes == m.net_tx_bytes
            &&& a.mqtt_online == m.mqtt_online
            &&& a.docker_online == m.docker_online
        }),
{
    reveal_strlit("$SYS/broker/clients/connected");
    reveal_strlit("$SYS/broker/messages/sent");
    reveal_strlit("$SYS/broker/messages/received");
    reveal_strlit("$SYS/broker/bytes/sent");
    reveal_strlit("$SYS/broker/bytes/received");
    let cc = "$SYS/broker/clients/connected"@;
    let ms = "$SYS/broker/messages/sent"@;
    let mr = "$SYS/broker/messages/received"@;
    let bs = "$SYS/broker/bytes/sent"@;
    let br = "$SYS/broker/bytes/received"@;
    assert(cc.len() == 29 && ms.len() == 25 && mr.len() == 29 && bs.len() == 22 && br.len() == 26);
    assert(cc[12] != mr[12]);
    assert(cc != ms && cc != mr && cc != bs && cc != br);
    assert(ms != mr && ms != bs && ms != br);
    assert(mr != bs && mr != br && bs != br);
}

/// Law: a publish on a topic that names no counter changes only the host and the update
/// time.
pub proof fn law_publish_other_topic(
    m: BrokerMetrics,
    host: String,
    topic: Seq<char>,
    payload: Seq<char>,
    now_secs: i64,
)
    requires
        sys_topic_spec(topic) is None,
    ensures
        after_publish(m, host, topic, payload, now_secs) == (BrokerMetrics {
            broker_host: host,
            last_updated_secs: Some(now_secs),
            ..m
        }),
{
}


/// Law: the answer of `GET /metrics` does not depend on the order in which the metrics
/// store was walked. Any two answers (as `get_metrics` states them) for two orders of the
/// same brokers, each id once, are equal.
pub proof fn law_metrics_order_independent(
    e1: Seq<(String, BrokerMetrics)>,
    e2: Seq<(String, BrokerMetrics)>,
    now_secs: i64,
    threshold_secs: i64,
    r1: Seq<BrokerMetricsResponse>,
    r2: Seq<BrokerMetricsResponse>,
)
    requires
        e1.to_multiset() == e2.to_multiset(),
        forall|i: int, j: int| 0 <= i < j < e1.len() ==> (#[trigger] e1[i]).0@ != (#[trigger] e1[j]).0@,
        r1.to_multiset() == metrics_responses(e1, now_secs, threshold_secs).to_multiset(),
        r2.to_multiset() == metrics_responses(e2, now_secs, threshold_secs).to_multiset(),
        sorted_by_name(r1),
        sorted_by_name(r2),
    ensures
        r1 == r2,
{
    broadcast use vstd::seq_lib::group_to_multiset_ensures;

    let f = |e: (String, BrokerMetrics)| metrics_response(e.0, e.1, now_secs, threshold_secs);
    let m1 = metrics_responses(e1, now_secs, threshold_secs);
    let m2 = metrics_responses(e2, now_secs, threshold_secs);
    assert(m1 =~= e1.map_values(f));
    assert(m2 =~= e2.map_values(f));
    lemma_map_values_multiset(e1, e2, f);
    assert forall|x: BrokerMetricsResponse, y: BrokerMetricsResponse|
        r1.to_multiset().contains(x) && r1.to_multiset().contains(y) && x.name_view()
            == y.name_view() implies x == y by {
        assert(m1.to_multiset().count(x) > 0);
        assert(m1.to_multiset().count(y) > 0);
        assert(m1.contains(x));
        assert(m1.contains(y));
        let i = choose|i: int| 0 <= i < m1.len() && m1[i] == x;
        let j = choose|j: int| 0 <= j < m1.len() && m1[j] == y;
        if i < j {
            assert(e1[i].0@ != e1[j].0@);
        } else if j < i {
            assert(e1[j].0@ != e1[i].0@);
        }
    }
    lemma_sorted_unique(r1, r2);
}

/// Law: the answer of `GET /brokers` does not depend on the order in which the registry
/// lists its brokers: any two answers for two orders of the same ids, each id once, are
/// equal.
pub proof fn law_brokers_order_independent(
    ids1: Seq<String>,
    ids2: Seq<String>,
    r1: Seq<String>,
    r2: Seq<String>,
)
    requires
        ids1.to_multiset() == ids2.to_multiset(),
        forall|i: int, j: int| 0 <= i < j < ids1.len() ==> (#[trigger] ids1[i])@ != (#[trigger] ids1[j])@,
        r1.to_multiset() == ids1.to_multiset(),
        r2.to_multiset() == ids2.to_multiset(),
        sorted_by_name(r1),
        sorted_by_name(r2),
    ensures
        r1 == r2,
{
    broadcast use vstd::seq_lib::group_to_multiset_ensures;

    assert forall|x: String, y: String|
        r1.to_multiset().contains(x) && r1.to_multiset().contains(y) && x.name_view()
            == y.name_view() implies x == y by {
        assert(ids1.to_multiset().count(x) > 0);
        assert(ids1.to_multiset().count(y) > 0);
        assert(ids1.contains(x));
        assert(ids1.contains(y));
        let i = choose|i: int| 0 <= i < ids1.len() && ids1[i] == x;
        let j = choose|j: int| 0 <= j < ids1.len() && ids1[j] == y;
        if i < j {
            assert(ids1[i]@ != ids1[j]@);
        } else if j < i {
            assert(ids1[j]@ != ids1[i]@);
        }
    }
    lemma_sorted_unique(r1, r2);
}

} // verus!
