//! Connection settings for the message broker.
use vstd::prelude::*;

verus! {

/// Broker address, topic and consumer group.
#[derive(Debug, Clone)]
pub struct KafkaConfig {
    pub broker: String,
    pub topic: String,
    pub group: String,
}

impl Default for KafkaConfig {
    /// Broker `localhost:9092`, topic `events`, group `poc`.
    fn default() -> (r: KafkaConfig)
        ensures
            r.broker@ == "localhost:9092"@,
            r.topic@ == "events"@,
            r.group@ == "poc"@,
    {
        KafkaConfig {
            broker: "localhost:9092".to_owned(),
            topic: "events".to_owned(),
            group: "poc".to_owned(),
        }
    }
}

/// The broker settings in use: the defaults.
pub fn get_kafka_config() -> (r: KafkaConfig)
    ensures
        r.broker@ == "localhost:9092"@,
        r.topic@ == "events"@,
        r.group@ == "poc"@,
{
    KafkaConfig::default()
}

} // verus!
