use eda_core::loader::{DestinationConfig, RoutingConfig, RuleConfig};
use eda_core::routing::{DestinationType, OutputDestination, RoutingEngine, RoutingRule};

fn dest(ty: &str, target: &str, cluster: Option<&str>) -> DestinationConfig {
    DestinationConfig {
        dest_type: ty.to_string(),
        target: target.to_string(),
        cluster: cluster.map(|c| c.to_string()),
    }
}

#[test]
fn config_sets_default_and_appends_rules() {
    let mut engine = RoutingEngine::new();
    engine.add_routing_rule(RoutingRule {
        name: "existing".to_string(),
        filter: r#"{"exact":{"type":"old"}}"#.to_string(),
        destination: OutputDestination { dest_type: DestinationType::Kafka, target: "old".to_string(), cluster: None },
    });
    let config = RoutingConfig {
        default: Some(dest("HTTPS", "https://hooks.example/all", None)),
        rules: Some(vec![
            RuleConfig {
                name: "orders".to_string(),
                filter: r#"{"prefix":{"type":"order."}}"#.to_string(),
                destination: dest("amqp", "orders-queue", Some("main")),
            },
            RuleConfig {
                name: "old-too".to_string(),
                filter: r#"{"exact":{"type":"old"}}"#.to_string(),
                destination: dest("nats", "ignored", None),
            },
        ]),
    };
    engine.apply_config(config);
    assert_eq!(engine.rule_count(), 3);
    let default = engine.get_default_destination();
    assert_eq!(default.dest_type, DestinationType::Http);
    assert_eq!(default.target, "https://hooks.example/all");
    let order = engine.get_output_destination(r#"{"specversion":"1.0","type":"order.paid","source":"s","id":"1"}"#);
    assert_eq!(order.dest_type, DestinationType::RabbitMQ);
    assert_eq!(order.cluster, Some("main".to_string()));
    let old = engine.get_output_destination(r#"{"specversion":"1.0","type":"old","source":"s","id":"1"}"#);
    assert_eq!(old.target, "old");
}

#[test]
fn config_without_default_keeps_the_current_one() {
    let mut engine = RoutingEngine::new();
    engine.set_default_destination(OutputDestination {
        dest_type: DestinationType::Discard,
        target: "void".to_string(),
        cluster: None,
    });
    engine.apply_config(RoutingConfig { default: None, rules: None });
    assert_eq!(engine.rule_count(), 0);
    assert_eq!(engine.get_default_destination().target, "void");
}
