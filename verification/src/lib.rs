//! Long-term statistics ingestion and transmission for a traffic-shaping
//! control plane.
//!
//! Per-entity QoS records are accumulated in a [`store::MessageQueue`],
//! categorized by statistic kind, and periodically forwarded to a central
//! collector through a strictly ordered session protocol
//! ([`session::session_step`]) whose frames are produced by the wire codec
//! ([`wire::WsMessage`]): a tagged binary serialization compressed with
//! DEFLATE.

pub mod config;
pub mod hosts;
pub mod queues;
pub mod records;
pub mod store;
pub mod wire;
pub mod codec;
pub mod session;
