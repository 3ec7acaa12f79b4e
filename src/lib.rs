//! Routing core for an event-driven pipeline: decides which destination
//! (broker topic, queue, webhook or discard) receives a CloudEvents-shaped
//! event, from an ordered table of filter rules and a default destination.
pub mod text;
pub mod json;
pub mod event;
pub mod filter;
pub mod routing;
pub mod loader;
pub mod config;
pub mod retry;
pub mod telemetry;

pub use config::{get_kafka_config, KafkaConfig};
pub use retry::{calculate_backoff, should_retry};
pub use routing::route_event;
