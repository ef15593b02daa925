//! Decision logic of a broker-monitoring agent and its gateway.
pub mod alerts;
pub mod brokers;
pub mod collate;
pub mod cooldown;
pub mod gateway;
pub mod history;
pub mod metrics;
pub mod model;
pub mod rules;
pub mod text;
