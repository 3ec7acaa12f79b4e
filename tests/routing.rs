use eda_core::routing::{
    parse_destination_type, DestinationType, OutputDestination, RoutingEngine, RoutingRule,
};

fn reset_routing_state(engine: &mut RoutingEngine) {
    engine.clear_routing_rules();
    let default = OutputDestination {
        dest_type: DestinationType::Kafka,
        target: "events".to_string(),
        cluster: Some("default".to_string()),
    };
    engine.set_default_destination(default);
}

fn rule(name: &str, filter: &str, dest_type: DestinationType, target: &str, cluster: Option<&str>) -> RoutingRule {
    RoutingRule {
        name: name.to_string(),
        filter: filter.to_string(),
        destination: OutputDestination {
            dest_type,
            target: target.to_string(),
            cluster: cluster.map(|c| c.to_string()),
        },
    }
}

fn event_of_type(ty: &str) -> String {
    format!(r#"{{"specversion":"1.0","type":"{}","source":"test","id":"1"}}"#, ty)
}

#[test]
fn test_default_destination() {
    let mut engine = RoutingEngine::new();
    reset_routing_state(&mut engine);
    let result = engine.get_output_destination(r#"{"specversion":"1.0","type":"test","source":"test","id":"1"}"#);
    assert_eq!(result.dest_type, DestinationType::Kafka);
    assert_eq!(result.target, "events");
    assert_eq!(result.cluster, Some("default".to_string()));
}

#[test]
fn test_set_default_destination() {
    let mut engine = RoutingEngine::new();
    reset_routing_state(&mut engine);
    let custom_dest = OutputDestination {
        dest_type: DestinationType::Http,
        target: "https://example.com/webhook".to_string(),
        cluster: None,
    };
    engine.set_default_destination(custom_dest);

    let result = engine.get_default_destination();
    assert_eq!(result.dest_type, DestinationType::Http);
    assert_eq!(result.target, "https://example.com/webhook");
    assert_eq!(result.cluster, None);
}

#[test]
fn test_exact_filter_match() {
    let mut engine = RoutingEngine::new();
    reset_routing_state(&mut engine);
    engine.add_routing_rule(rule(
        "test-rule",
        r#"{"exact":{"type":"com.example.test"}}"#,
        DestinationType::Kafka,
        "test-topic",
        Some("test-cluster"),
    ));
    let event_json = r#"{"specversion":"1.0","type":"com.example.test","source":"test","id":"1"}"#;
    let result = engine.get_output_destination(event_json);
    assert_eq!(result.dest_type, DestinationType::Kafka);
    assert_eq!(result.target, "test-topic");
}

#[test]
fn test_prefix_filter_match() {
    let mut engine = RoutingEngine::new();
    reset_routing_state(&mut engine);
    engine.add_routing_rule(rule(
        "prefix-rule",
        r#"{"prefix":{"type":"com.example."}}"#,
        DestinationType::Kafka,
        "example-events",
        Some("default"),
    ));
    let event_json = r#"{"specversion":"1.0","type":"com.example.order.created","source":"test","id":"1"}"#;
    let result = engine.get_output_destination(event_json);
    assert_eq!(result.dest_type, DestinationType::Kafka);
    assert_eq!(result.target, "example-events");
}

#[test]
fn test_suffix_filter_match() {
    let mut engine = RoutingEngine::new();
    reset_routing_state(&mut engine);
    engine.add_routing_rule(rule(
        "suffix-rule",
        r#"{"suffix":{"type":".created"}}"#,
        DestinationType::Kafka,
        "created-events",
        Some("default"),
    ));
    let event_json = r#"{"specversion":"1.0","type":"order.created","source":"test","id":"1"}"#;
    let result = engine.get_output_destination(event_json);
    assert_eq!(result.dest_type, DestinationType::Kafka);
    assert_eq!(result.target, "created-events");
}

#[test]
fn test_no_match_returns_default() {
    let mut engine = RoutingEngine::new();
    reset_routing_state(&mut engine);
    engine.add_routing_rule(rule(
        "specific-rule",
        r#"{"exact":{"type":"specific.type"}}"#,
        DestinationType::Http,
        "http://example.com",
        None,
    ));
    let event_json = r#"{"specversion":"1.0","type":"different.type","source":"test","id":"1"}"#;
    let result = engine.get_output_destination(event_json);
    assert_eq!(result.dest_type, DestinationType::Kafka);
    assert_eq!(result.target, "events");
}

#[test]
fn empty_table_uses_hard_coded_fallback() {
    let engine = RoutingEngine::new();
    let result = engine.get_output_destination(&event_of_type("anything"));
    assert_eq!(result.dest_type, DestinationType::Kafka);
    assert_eq!(result.target, "events");
    assert_eq!(result.cluster, Some("default".to_string()));
    let fallback = engine.get_default_destination();
    assert_eq!(fallback.target, "events");
}

#[test]
fn empty_table_uses_configured_default() {
    let mut engine = RoutingEngine::new();
    engine.set_default_destination(OutputDestination {
        dest_type: DestinationType::Discard,
        target: String::new(),
        cluster: None,
    });
    let result = engine.get_output_destination(&event_of_type("x"));
    assert_eq!(result.dest_type, DestinationType::Discard);
}

#[test]
fn exact_filter_rejects_other_types() {
    let mut engine = RoutingEngine::new();
    engine.add_routing_rule(rule("r", r#"{"exact":{"type":"com.example.test"}}"#, DestinationType::Http, "hook", None));
    assert_eq!(engine.get_output_destination(&event_of_type("com.example.test")).target, "hook");
    assert_eq!(engine.get_output_destination(&event_of_type("com.example.test2")).target, "events");
    assert_eq!(engine.get_output_destination(&event_of_type("com.example.tes")).target, "events");
}

#[test]
fn suffix_filter_rejects_other_endings() {
    let mut engine = RoutingEngine::new();
    engine.add_routing_rule(rule("r", r#"{"suffix":{"type":".created"}}"#, DestinationType::Kafka, "created", None));
    assert_eq!(engine.get_output_destination(&event_of_type("order.created")).target, "created");
    assert_eq!(engine.get_output_destination(&event_of_type("order.updated")).target, "events");
}

#[test]
fn empty_all_matches_and_empty_any_does_not() {
    let mut engine = RoutingEngine::new();
    engine.add_routing_rule(rule("any", r#"{"any":[]}"#, DestinationType::Http, "any-target", None));
    engine.add_routing_rule(rule("all", r#"{"all":[]}"#, DestinationType::Http, "all-target", None));
    assert_eq!(engine.get_output_destination(&event_of_type("x")).target, "all-target");
}

#[test]
fn not_inverts_its_child() {
    let mut engine = RoutingEngine::new();
    engine.add_routing_rule(rule("n", r#"{"not":{"exact":{"type":"a"}}}"#, DestinationType::Http, "not-a", None));
    assert_eq!(engine.get_output_destination(&event_of_type("a")).target, "events");
    assert_eq!(engine.get_output_destination(&event_of_type("b")).target, "not-a");
}

#[test]
fn nested_all_and_any() {
    let mut engine = RoutingEngine::new();
    let filter = r#"{"all":[{"prefix":{"type":"order."}},{"any":[{"exact":{"source":"shop"}},{"suffix":{"type":".paid"}}]}]}"#;
    engine.add_routing_rule(rule("nested", filter, DestinationType::RabbitMQ, "orders", None));
    let shop = r#"{"specversion":"1.0","type":"order.created","source":"shop","id":"1"}"#;
    let paid = r#"{"specversion":"1.0","type":"order.paid","source":"web","id":"1"}"#;
    let other = r#"{"specversion":"1.0","type":"order.created","source":"web","id":"1"}"#;
    assert_eq!(engine.get_output_destination(shop).target, "orders");
    assert_eq!(engine.get_output_destination(paid).dest_type, DestinationType::RabbitMQ);
    assert_eq!(engine.get_output_destination(other).target, "events");
}

#[test]
fn first_added_rule_wins() {
    let mut engine = RoutingEngine::new();
    engine.add_routing_rule(rule("first", r#"{"prefix":{"type":"order."}}"#, DestinationType::Kafka, "first", None));
    engine.add_routing_rule(rule("second", r#"{"exact":{"type":"order.created"}}"#, DestinationType::Http, "second", None));
    let result = engine.get_output_destination(&event_of_type("order.created"));
    assert_eq!(result.target, "first");
    assert_eq!(result.dest_type, DestinationType::Kafka);
}

#[test]
fn malformed_filters_never_match() {
    let mut engine = RoutingEngine::new();
    engine.add_routing_rule(rule("broken", r#"{"exact":"#, DestinationType::Http, "broken", None));
    engine.add_routing_rule(rule("unknown", r#"{"like":{"type":"x"}}"#, DestinationType::Http, "unknown", None));
    engine.add_routing_rule(rule("scalar", "42", DestinationType::Http, "scalar", None));
    engine.add_routing_rule(rule("bad-exact", r#"{"exact":[1,2]}"#, DestinationType::Http, "bad-exact", None));
    engine.add_routing_rule(rule("bad-all", r#"{"all":{"exact":{}}}"#, DestinationType::Http, "bad-all", None));
    engine.add_routing_rule(rule("good", r#"{"exact":{"type":"x"}}"#, DestinationType::Kafka, "good", None));
    assert_eq!(engine.get_output_destination(&event_of_type("x")).target, "good");
    assert_eq!(engine.get_output_destination(&event_of_type("y")).target, "events");
}

#[test]
fn non_string_operand_never_matches() {
    let mut engine = RoutingEngine::new();
    engine.add_routing_rule(rule("exact-num", r#"{"exact":{"subject":5}}"#, DestinationType::Http, "exact-num", None));
    engine.add_routing_rule(rule("prefix-num", r#"{"prefix":{"type":5}}"#, DestinationType::Http, "prefix-num", None));
    engine.add_routing_rule(rule("suffix-null", r#"{"suffix":{"type":null}}"#, DestinationType::Http, "suffix-null", None));
    engine.add_routing_rule(rule("mixed", r#"{"exact":{"type":"x","source":true}}"#, DestinationType::Http, "mixed", None));
    assert_eq!(engine.get_output_destination(&event_of_type("x")).target, "events");
    assert_eq!(engine.get_output_destination(&event_of_type("")).target, "events");
}

#[test]
fn not_over_a_non_object_never_matches() {
    let mut engine = RoutingEngine::new();
    engine.add_routing_rule(rule("not-num", r#"{"not":5}"#, DestinationType::Http, "not-num", None));
    engine.add_routing_rule(rule("not-list", r#"{"not":[]}"#, DestinationType::Http, "not-list", None));
    engine.add_routing_rule(rule("not-empty", r#"{"not":{}}"#, DestinationType::Http, "not-empty", None));
    assert_eq!(engine.get_output_destination(&event_of_type("x")).target, "not-empty");
}

#[test]
fn first_recognised_key_decides() {
    let mut engine = RoutingEngine::new();
    engine.add_routing_rule(rule("multi", r#"{"any":[],"exact":{"type":"x"}}"#, DestinationType::Http, "multi", None));
    assert_eq!(engine.get_output_destination(&event_of_type("x")).target, "multi");
}

#[test]
fn filters_past_the_depth_limit_do_not_match() {
    let mut shallow = String::from(r#"{"exact":{"type":"x"}}"#);
    for _ in 0..31 {
        shallow = format!(r#"{{"all":[{}]}}"#, shallow);
    }
    let deep = format!(r#"{{"all":[{}]}}"#, shallow);
    let mut engine = RoutingEngine::new();
    engine.add_routing_rule(rule("deep", &deep, DestinationType::Http, "deep", None));
    engine.add_routing_rule(rule("shallow", &shallow, DestinationType::Http, "shallow", None));
    assert_eq!(engine.get_output_destination(&event_of_type("x")).target, "shallow");
}

#[test]
fn unparseable_event_goes_to_default() {
    let mut engine = RoutingEngine::new();
    engine.add_routing_rule(rule("all", r#"{"all":[]}"#, DestinationType::Http, "all", None));
    let result = engine.get_output_destination("not json at all");
    assert_eq!(result.target, "events");
    let missing_id = engine.get_output_destination(r#"{"specversion":"1.0","type":"x","source":"s"}"#);
    assert_eq!(missing_id.target, "events");
}

#[test]
fn extension_and_subject_attributes() {
    let mut engine = RoutingEngine::new();
    engine.add_routing_rule(rule("prio", r#"{"exact":{"priority":"high"}}"#, DestinationType::Http, "urgent", None));
    engine.add_routing_rule(rule("subj", r#"{"prefix":{"subject":"invoice-"}}"#, DestinationType::Http, "billing", None));
    let high = r#"{"specversion":"1.0","type":"t","source":"s","id":"1","priority":"high"}"#;
    let subj = r#"{"specversion":"1.0","type":"t","source":"s","id":"1","subject":"invoice-7"}"#;
    let none = r#"{"specversion":"1.0","type":"t","source":"s","id":"1","priority":"low"}"#;
    assert_eq!(engine.get_output_destination(high).target, "urgent");
    assert_eq!(engine.get_output_destination(subj).target, "billing");
    assert_eq!(engine.get_output_destination(none).target, "events");
}

#[test]
fn resolving_twice_gives_the_same_destination() {
    let mut engine = RoutingEngine::new();
    engine.add_routing_rule(rule("r", r#"{"prefix":{"type":"a"}}"#, DestinationType::Http, "a", Some("c1")));
    let ev = event_of_type("abc");
    let first = engine.get_output_destination(&ev);
    let second = engine.get_output_destination(&ev);
    assert_eq!(first.dest_type, second.dest_type);
    assert_eq!(first.target, second.target);
    assert_eq!(first.cluster, second.cluster);
}

#[test]
fn orders_scenario() {
    let mut engine = RoutingEngine::new();
    engine.set_default_destination(OutputDestination {
        dest_type: DestinationType::Kafka,
        target: "events".to_string(),
        cluster: Some("default".to_string()),
    });
    engine.add_routing_rule(rule("orders", r#"{"prefix":{"type":"order."}}"#, DestinationType::Kafka, "order-events", Some("default")));
    let order = engine.get_output_destination(&event_of_type("order.created"));
    assert_eq!((order.target.as_str(), order.cluster.as_deref()), ("order-events", Some("default")));
    let user = engine.get_output_destination(&event_of_type("user.created"));
    assert_eq!((user.target.as_str(), user.cluster.as_deref()), ("events", Some("default")));
}

#[test]
fn clearing_rules_keeps_the_default() {
    let mut engine = RoutingEngine::new();
    engine.set_default_destination(OutputDestination {
        dest_type: DestinationType::Http,
        target: "fallback".to_string(),
        cluster: None,
    });
    engine.add_routing_rule(rule("all", r#"{"all":[]}"#, DestinationType::Kafka, "all", None));
    assert_eq!(engine.rule_count(), 1);
    engine.clear_routing_rules();
    assert_eq!(engine.rule_count(), 0);
    assert_eq!(engine.get_output_destination(&event_of_type("x")).target, "fallback");
}

#[test]
fn destination_type_names_in_any_case() {
    assert_eq!(parse_destination_type("kafka"), DestinationType::Kafka);
    assert_eq!(parse_destination_type("KAFKA"), DestinationType::Kafka);
    assert_eq!(parse_destination_type("RabbitMQ"), DestinationType::RabbitMQ);
    assert_eq!(parse_destination_type("AMQP"), DestinationType::RabbitMQ);
    assert_eq!(parse_destination_type("Http"), DestinationType::Http);
    assert_eq!(parse_destination_type("HTTPS"), DestinationType::Http);
    assert_eq!(parse_destination_type("Discard"), DestinationType::Discard);
    assert_eq!(parse_destination_type("sqs"), DestinationType::Kafka);
    assert_eq!(parse_destination_type(""), DestinationType::Kafka);
}

#[test]
fn destination_type_codes() {
    assert_eq!(DestinationType::Kafka.code(), 0);
    assert_eq!(DestinationType::RabbitMQ.code(), 1);
    assert_eq!(DestinationType::Http.code(), 2);
    assert_eq!(DestinationType::Discard.code(), 3);
}
