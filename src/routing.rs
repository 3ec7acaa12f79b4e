//! Destinations, routing rules, and the engine that holds the rule table
//! and resolves events against it.
use crate::event::{parse_event, parsed_event, EventAttributes, EventModel};
use crate::filter::{operands_well_formed, text_matches, Filter};
use crate::json::Json;
use crate::json::{json_from_text, member};
use crate::text::{lowercase_of, same_text, to_lowercase};
use vstd::prelude::*;

verus! {

/// The kind of system that receives an event.
#[derive(Debug, Clone, Copy, PartialEq, Eq, Structural)]
pub enum DestinationType {
    Kafka,
    RabbitMQ,
    Http,
    Discard,
}

/// The kind that a lowercase type name in configuration stands for;
/// a name that is not known stands for Kafka.
pub open spec fn kind_named(s: Seq<char>) -> DestinationType {
    if s == "kafka"@ {
        DestinationType::Kafka
    } else if s == "rabbitmq"@ || s == "amqp"@ {
        DestinationType::RabbitMQ
    } else if s == "http"@ || s == "https"@ {
        DestinationType::Http
    } else if s == "discard"@ {
        DestinationType::Discard
    } else {
        DestinationType::Kafka
    }
}

/// The number that stands for a kind across a foreign-function boundary.
pub open spec fn kind_code(k: DestinationType) -> u32 {
    match k {
        DestinationType::Kafka => 0,
        DestinationType::RabbitMQ => 1,
        DestinationType::Http => 2,
        DestinationType::Discard => 3,
    }
}

impl DestinationType {
    /// The kind for a type name that is already in lowercase.
    pub fn from_lowercase_name(s: &str) -> (r: DestinationType)
        ensures
            r == kind_named(s@),
    {
        if same_text(s, "kafka") {
            DestinationType::Kafka
        } else if same_text(s, "rabbitmq") || same_text(s, "amqp") {
            DestinationType::RabbitMQ
        } else if same_text(s, "http") || same_text(s, "https") {
            DestinationType::Http
        } else if same_text(s, "discard") {
            DestinationType::Discard
        } else {
            DestinationType::Kafka
        }
    }

    /// The number for this kind: 0 Kafka, 1 RabbitMQ, 2 Http, 3 Discard.
    pub fn code(&self) -> (r: u32)
        ensures
            r == kind_code(*self),
    {
        match self {
            DestinationType::Kafka => 0,
            DestinationType::RabbitMQ => 1,
            DestinationType::Http => 2,
            DestinationType::Discard => 3,
        }
    }
}

/// The kind that a type name in configuration stands for, in any case.
pub fn parse_destination_type(type_str: &str) -> (r: DestinationType)
    ensures
        r == kind_named(lowercase_of(type_str@)),
{
    let lower = to_lowercase(type_str);
    DestinationType::from_lowercase_name(lower.as_str())
}

/// The handler that receives events of the given type. This revision has
/// one handler, number 0, for every type.
pub fn route_event(_event_type: &str) -> (r: u32)
    ensures
        r == 0,
{
    0
}

/// A destination: its kind, the target within it (topic, queue or URL),
/// and the cluster, if one is named.
pub struct DestinationSpec {
    pub kind: DestinationType,
    pub target: Seq<char>,
    pub cluster: Option<Seq<char>>,
}

pub open spec fn opt_view(s: Option<String>) -> Option<Seq<char>> {
    match s {
        Some(t) => Some(t@),
        None => None,
    }
}

#[derive(Debug, Clone)]
pub struct OutputDestination {
    pub dest_type: DestinationType,
    pub target: String,
    pub cluster: Option<String>,
}

impl View for OutputDestination {
    type V = DestinationSpec;

    open spec fn view(&self) -> DestinationSpec {
        DestinationSpec { kind: self.dest_type, target: self.target@, cluster: opt_view(self.cluster) }
    }
}

/// The destination used when no default has been set.
pub open spec fn fallback_destination() -> DestinationSpec {
    DestinationSpec { kind: DestinationType::Kafka, target: "events"@, cluster: Some("default"@) }
}

impl OutputDestination {
    /// An independent copy of this destination.
    pub fn copied(&self) -> (r: OutputDestination)
        ensures
            r@ == self@,
    {
        let cluster = match &self.cluster {
            Some(c) => Some(c.clone()),
            None => None,
        };
        OutputDestination { dest_type: self.dest_type, target: self.target.clone(), cluster }
    }

    /// Kafka, target `events`, cluster `default`.
    pub fn fallback() -> (r: OutputDestination)
        ensures
            r@ == fallback_destination(),
    {
        OutputDestination {
            dest_type: DestinationType::Kafka,
            target: "events".to_owned(),
            cluster: Some("default".to_owned()),
        }
    }
}

/// A rule: its name, its filter as JSON text, and where matching events go.
pub struct RuleSpec {
    pub name: Seq<char>,
    pub filter: Seq<char>,
    pub destination: DestinationSpec,
}

#[derive(Debug, Clone)]
pub struct RoutingRule {
    pub name: String,
    pub filter: String,
    pub destination: OutputDestination,
}

impl View for RoutingRule {
    type V = RuleSpec;

    open spec fn view(&self) -> RuleSpec {
        RuleSpec { name: self.name@, filter: self.filter@, destination: self.destination@ }
    }
}

pub open spec fn rule_matches(r: RuleSpec, ev: EventModel) -> bool {
    text_matches(r.filter, ev)
}

/// Where an event goes: to the destination of the first rule that matches
/// it, or to `fallback` where none does.
pub open spec fn route(rules: Seq<RuleSpec>, ev: EventModel, fallback: DestinationSpec) -> DestinationSpec
    decreases rules.len(),
{
    if rules.len() == 0 {
        fallback
    } else if rule_matches(rules[0], ev) {
        rules[0].destination
    } else {
        route(rules.drop_first(), ev, fallback)
    }
}

/// A rule table: rules in the order of their priority, and a default.
pub struct EngineSpec {
    pub rules: Seq<RuleSpec>,
    pub default: Option<DestinationSpec>,
}

pub open spec fn effective_default(e: EngineSpec) -> DestinationSpec {
    match e.default {
        Some(d) => d,
        None => fallback_destination(),
    }
}

/// Where an event written as JSON text goes; text that is not an event
/// goes to the default.
pub open spec fn resolve_text(e: EngineSpec, text: Seq<char>) -> DestinationSpec {
    match parsed_event(text) {
        Some(ev) => route(e.rules, ev, effective_default(e)),
        None => effective_default(e),
    }
}

/// The routing policy in effect: an ordered rule table and a default
/// destination.
pub struct RoutingEngine {
    rules: Vec<RoutingRule>,
    default: Option<OutputDestination>,
}

impl View for RoutingEngine {
    type V = EngineSpec;

    closed spec fn view(&self) -> EngineSpec {
        EngineSpec {
            rules: self.rules@.map_values(|r: RoutingRule| r@),
            default: match self.default {
                Some(d) => Some(d@),
                None => None,
            },
        }
    }
}

impl RoutingEngine {
    /// An engine with no rules and no default set.
    pub fn new() -> (r: RoutingEngine)
        ensures
            r@.rules.len() == 0,
            r@.default is None,
    {
        RoutingEngine { rules: Vec::new(), default: None }
    }

    /// Appends a rule after all the others: it has the lowest priority.
    pub fn add_routing_rule(&mut self, rule: RoutingRule)
        ensures
            final(self)@.rules == old(self)@.rules.push(rule@),
            final(self)@.default == old(self)@.default,
    {
        self.rules.push(rule);
        proof {
            assert(self@.rules =~= old(self)@.rules.push(rule@));
        }
    }

    /// Removes every rule; the default stays.
    pub fn clear_routing_rules(&mut self)
        ensures
            final(self)@.rules.len() == 0,
            final(self)@.default == old(self)@.default,
    {
        self.rules.clear();
        proof {
            assert(self@.rules =~= Seq::<RuleSpec>::empty());
        }
    }

    /// The number of rules in the table.
    pub fn rule_count(&self) -> (r: usize)
        ensures
            r == self@.rules.len(),
    {
        self.rules.len()
    }

    /// Sets the destination for events that no rule matches.
    pub fn set_default_destination(&mut self, dest: OutputDestination)
        ensures
            final(self)@.default == Some(dest@),
            final(self)@.rules == old(self)@.rules,
    {
        self.default = Some(dest);
    }

    /// The destination for events that no rule matches: the one set, or
    /// Kafka `events` on cluster `default` where none was.
    pub fn get_default_destination(&self) -> (r: OutputDestination)
        ensures
            r@ == effective_default(self@),
    {
        match &self.default {
            Some(d) => d.copied(),
            None => OutputDestination::fallback(),
        }
    }

    /// Where a parsed event goes: the destination of the first rule whose
    /// filter matches it, or the default.
    pub fn resolve_event(&self, ev: &EventAttributes) -> (r: OutputDestination)
        ensures
            r@ == route(self@.rules, ev@, effective_default(self@)),
    {
        let ghost rules = self@.rules;
        let ghost d = effective_default(self@);
        let n = self.rules.len();
        let mut i: usize = 0;
        assert(rules.subrange(0, n as int) =~= rules);
        while i < n
            invariant
                n == self.rules@.len(),
                rules == self@.rules,
                d == effective_default(self@),
                0 <= i <= n,
                route(rules, ev@, d) == route(rules.subrange(i as int, n as int), ev@, d),
            decreases n - i,
        {
            assert(rules.subrange(i as int, n as int).drop_first() =~= rules.subrange(i + 1, n as int));
            let rule = &self.rules[i];
            let filter = Filter::parse(rule.filter.as_str());
            if filter.evaluate(ev) {
                return rule.destination.copied();
            }
            i = i + 1;
        }
        self.get_default_destination()
    }

    /// Where an event written as CloudEvents JSON goes. Text that is not an
    /// event goes to the default: resolution never fails.
    pub fn get_output_destination(&self, event_json: &str) -> (r: OutputDestination)
        ensures
            r@ == resolve_text(self@, event_json@),
    {
        match parse_event(event_json) {
            Some(ev) => self.resolve_event(&ev),
            None => self.get_default_destination(),
        }
    }
}

/// The rule at `i` is the first that matches: the event goes to its
/// destination.
pub proof fn law_first_matching_rule_decides(
    rules: Seq<RuleSpec>,
    ev: EventModel,
    fallback: DestinationSpec,
    i: int,
)
    requires
        0 <= i < rules.len(),
        rule_matches(rules[i], ev),
        forall|k: int| 0 <= k < i ==> !rule_matches(#[trigger] rules[k], ev),
    ensures
        route(rules, ev, fallback) == rules[i].destination,
    decreases i,
{
    if i > 0 {
        assert(!rule_matches(rules[0], ev));
        let rest = rules.drop_first();
        assert forall|k: int| 0 <= k < i - 1 implies !rule_matches(#[trigger] rest[k], ev) by {
            assert(rest[k] == rules[k + 1]);
        }
        assert(rest[i - 1] == rules[i]);
        law_first_matching_rule_decides(rest, ev, fallback, i - 1);
    }
}

/// Of two rules that both match an event, the one added first decides.
pub proof fn law_first_added_rule_wins(a: RuleSpec, b: RuleSpec, ev: EventModel, fallback: DestinationSpec)
    requires
        rule_matches(a, ev),
        rule_matches(b, ev),
    ensures
        route(seq![a, b], ev, fallback) == a.destination,
{
}

/// With no rules, every event text, parseable or not, goes to the default.
pub proof fn law_empty_table_resolves_to_default(e: EngineSpec, text: Seq<char>)
    requires
        e.rules.len() == 0,
    ensures
        resolve_text(e, text) == effective_default(e),
{
}

/// A filter node that is malformed: it holds none of the keys of a filter,
/// or the value under its deciding key has the wrong shape (an attribute
/// test needs an object of strings, `all` and `any` an array, `not` an
/// object).
pub open spec fn malformed_node(j: Json) -> bool {
    if member(j, "exact"@) is Some {
        !operands_well_formed(member(j, "exact"@)->0)
    } else if member(j, "prefix"@) is Some {
        !operands_well_formed(member(j, "prefix"@)->0)
    } else if member(j, "suffix"@) is Some {
        !operands_well_formed(member(j, "suffix"@)->0)
    } else if member(j, "all"@) is Some {
        !(member(j, "all"@)->0 is Array)
    } else if member(j, "any"@) is Some {
        !(member(j, "any"@)->0 is Array)
    } else if member(j, "not"@) is Some {
        !(member(j, "not"@)->0 is Object)
    } else {
        true
    }
}

/// A filter text that is not JSON, or whose top node is malformed.
pub open spec fn malformed_filter(text: Seq<char>) -> bool {
    match json_from_text(text) {
        None => true,
        Some(j) => malformed_node(j),
    }
}

proof fn lemma_skip_rule(rules: Seq<RuleSpec>, i: int, ev: EventModel, fallback: DestinationSpec)
    requires
        0 <= i < rules.len(),
        !rule_matches(rules[i], ev),
    ensures
        route(rules, ev, fallback) == route(rules.remove(i), ev, fallback),
    decreases i,
{
    if i == 0 {
        assert(rules.remove(0) =~= rules.drop_first());
    } else {
        let rest = rules.drop_first();
        assert(rest[i - 1] == rules[i]);
        lemma_skip_rule(rest, i - 1, ev, fallback);
        assert(rules.remove(i).drop_first() =~= rest.remove(i - 1));
        assert(rules.remove(i)[0] == rules[0]);
    }
}

/// A rule with a malformed filter matches nothing: the table resolves as
/// if the rule were not there.
pub proof fn law_malformed_rule_is_skipped(
    rules: Seq<RuleSpec>,
    i: int,
    ev: EventModel,
    fallback: DestinationSpec,
)
    requires
        0 <= i < rules.len(),
        malformed_filter(rules[i].filter),
    ensures
        !rule_matches(rules[i], ev),
        route(rules, ev, fallback) == route(rules.remove(i), ev, fallback),
{
    lemma_skip_rule(rules, i, ev, fallback);
}

/// Resolving one event text twice against one table gives one destination.
pub proof fn law_resolution_is_repeatable(
    e: EngineSpec,
    text: Seq<char>,
    first: DestinationSpec,
    second: DestinationSpec,
)
    requires
        first == resolve_text(e, text),
        second == resolve_text(e, text),
    ensures
        first == second,
{
}

} // verus!
