//! The records that the agent keeps and the shapes of its HTTP answers.
//!
//! Floating-point readings (CPU percentage, memory, alert values and
//! thresholds) are carried as the bit patterns of their `f64` values
//! (`f64::to_bits`): the logic here stores and moves them, it never computes
//! with them.
use vstd::prelude::*;

verus! {

/// An alert that a rule raised for a broker.
#[derive(Debug)]
pub struct FiredAlert {
    pub id: String,
    pub broker_id: String,
    pub metric: String,
    pub operator: String,
    /// `f64::to_bits` of the reading that breached the rule.
    pub value_bits: u64,
    /// `f64::to_bits` of the rule's threshold.
    pub threshold_bits: u64,
    /// Unix seconds.
    pub fired_at: i64,
    pub acknowledged: bool,
}

impl FiredAlert {
    /// A field-by-field copy.
    pub fn duplicate(&self) -> (r: FiredAlert)
        ensures
            r == *self,
    {
        FiredAlert {
            id: self.id.clone(),
            broker_id: self.broker_id.clone(),
            metric: self.metric.clone(),
            operator: self.operator.clone(),
            value_bits: self.value_bits,
            threshold_bits: self.threshold_bits,
            fired_at: self.fired_at,
            acknowledged: self.acknowledged,
        }
    }
}

/// Answer of `GET /alerts`.
pub struct AlertsEnvelope {
    pub alerts: Vec<FiredAlert>,
    pub count: usize,
}

/// Answer of a successful `PATCH /alerts/{id}/acknowledge`.
#[derive(Debug)]
pub struct AckResponse {
    pub id: String,
    pub acknowledged: bool,
}

/// An error answer: `{ "error": ... }`.
#[derive(Debug)]
pub struct ErrorResponse {
    pub error: String,
}

/// Answer of `GET /brokers`.
pub struct BrokersEnvelope {
    pub brokers: Vec<String>,
    pub count: usize,
}

/// What the agent knows of one broker.
#[derive(Debug)]
pub struct BrokerMetrics {
    pub broker_host: String,
    pub clients_connected: Option<u64>,
    pub messages_sent: Option<u64>,
    pub messages_received: Option<u64>,
    pub bytes_sent: Option<u64>,
    pub bytes_received: Option<u64>,
    /// `f64::to_bits` of the CPU percentage.
    pub cpu_percent_bits: Option<u64>,
    /// `f64::to_bits` of the memory use in MB.
    pub mem_usage_mb_bits: Option<u64>,
    pub net_rx_bytes: Option<u64>,
    pub net_tx_bytes: Option<u64>,
    /// Unix seconds of the last `$SYS` update.
    pub last_updated_secs: Option<i64>,
    pub mqtt_online: bool,
    pub docker_online: bool,
}

impl BrokerMetrics {
    /// A field-by-field copy.
    pub fn duplicate(&self) -> (r: BrokerMetrics)
        ensures
            r == *self,
    {
        BrokerMetrics {
            broker_host: self.broker_host.clone(),
            clients_connected: self.clients_connected,
            messages_sent: self.messages_sent,
            messages_received: self.messages_received,
            bytes_sent: self.bytes_sent,
            bytes_received: self.bytes_received,
            cpu_percent_bits: self.cpu_percent_bits,
            mem_usage_mb_bits: self.mem_usage_mb_bits,
            net_rx_bytes: self.net_rx_bytes,
            net_tx_bytes: self.net_tx_bytes,
            last_updated_secs: self.last_updated_secs,
            mqtt_online: self.mqtt_online,
            docker_online: self.docker_online,
        }
    }

    /// The record of a broker that nothing has been heard of yet (`Default`).
    pub fn new() -> (m: BrokerMetrics)
        ensures
            m.broker_host@ == Seq::<char>::empty(),
            m.clients_connected is None,
            m.messages_sent is None,
            m.messages_received is None,
            m.bytes_sent is None,
            m.bytes_received is None,
            m.cpu_percent_bits is None,
            m.mem_usage_mb_bits is None,
            m.net_rx_bytes is None,
            m.net_tx_bytes is None,
            m.last_updated_secs is None,
            !m.mqtt_online,
            !m.docker_online,
    {
        BrokerMetrics {
            broker_host: String::new(),
            clients_connected: None,
            messages_sent: None,
            messages_received: None,
            bytes_sent: None,
            bytes_received: None,
            cpu_percent_bits: None,
            mem_usage_mb_bits: None,
            net_rx_bytes: None,
            net_tx_bytes: None,
            last_updated_secs: None,
            mqtt_online: false,
            docker_online: false,
        }
    }
}

/// One broker in the answer of `GET /metrics`.
#[derive(Debug)]
pub struct BrokerMetricsResponse {
    pub broker_id: String,
    pub clients_connected: Option<u64>,
    pub messages_sent: Option<u64>,
    pub messages_received: Option<u64>,
    pub bytes_sent: Option<u64>,
    pub bytes_received: Option<u64>,
    pub cpu_percent_bits: Option<u64>,
    pub mem_usage_mb_bits: Option<u64>,
    pub net_rx_bytes: Option<u64>,
    pub net_tx_bytes: Option<u64>,
    pub last_updated_secs: Option<i64>,
    pub stale: bool,
    pub mqtt_online: bool,
    pub docker_online: bool,
    pub online: bool,
}

/// Answer of `GET /metrics`.
pub struct MetricsEnvelope {
    pub brokers: Vec<BrokerMetricsResponse>,
    pub count: usize,
}

/// A threshold rule from the rules file.
#[derive(Debug)]
pub struct AlertRule {
    pub metric: String,
    pub operator: String,
    /// `f64::to_bits` of the threshold.
    pub threshold_bits: u64,
    pub cooldown_secs: u64,
}

impl AlertRule {
    /// A field-by-field copy.
    pub fn duplicate(&self) -> (r: AlertRule)
        ensures
            r == *self,
    {
        AlertRule {
            metric: self.metric.clone(),
            operator: self.operator.clone(),
            threshold_bits: self.threshold_bits,
            cooldown_secs: self.cooldown_secs,
        }
    }
}

/// Filters of `GET /alerts`.
pub struct AlertsQuery {
    pub acknowledged: Option<bool>,
    pub broker_id: Option<String>,
    pub metric: Option<String>,
}

/// Parameters of `GET /metrics/history`.
pub struct HistoryQuery {
    pub broker_id: String,
    pub from: String,
    pub to: Option<String>,
    pub limit: Option<usize>,
    pub offset: Option<usize>,
}

} // verus!
