//! Routing configuration: a parsed `routing` document, and how it changes a
//! rule table.
use crate::routing::{
    kind_named, opt_view, parse_destination_type, DestinationSpec, OutputDestination, RoutingEngine,
    RoutingRule, RuleSpec,
};
use crate::text::lowercase_of;
use vstd::prelude::*;

verus! {

/// A destination as configuration writes it: `type` is a name in any case.
pub struct DestinationConfig {
    pub dest_type: String,
    pub target: String,
    pub cluster: Option<String>,
}

/// A rule as configuration writes it; its filter is JSON text.
pub struct RuleConfig {
    pub name: String,
    pub filter: String,
    pub destination: DestinationConfig,
}

/// The `routing` section: an optional default and an optional rule list.
pub struct RoutingConfig {
    pub default: Option<DestinationConfig>,
    pub rules: Option<Vec<RuleConfig>>,
}

/// The destination that a configured one describes.
pub open spec fn configured_destination(c: DestinationConfig) -> DestinationSpec {
    DestinationSpec {
        kind: kind_named(lowercase_of(c.dest_type@)),
        target: c.target@,
        cluster: opt_view(c.cluster),
    }
}

/// The rule that a configured one describes.
pub open spec fn configured_rule(c: RuleConfig) -> RuleSpec {
    RuleSpec { name: c.name@, filter: c.filter@, destination: configured_destination(c.destination) }
}

/// The rules that a configuration adds, in order.
pub open spec fn configured_rules(c: RoutingConfig) -> Seq<RuleSpec> {
    match c.rules {
        Some(rs) => rs@.map_values(|r: RuleConfig| configured_rule(r)),
        None => Seq::empty(),
    }
}

impl DestinationConfig {
    /// The destination this configuration describes.
    pub fn into_destination(self) -> (r: OutputDestination)
        ensures
            r@ == configured_destination(self),
    {
        let dest_type = parse_destination_type(self.dest_type.as_str());
        OutputDestination { dest_type, target: self.target, cluster: self.cluster }
    }
}

impl RuleConfig {
    /// The rule this configuration describes.
    pub fn into_rule(self) -> (r: RoutingRule)
        ensures
            r@ == configured_rule(self),
    {
        let destination = self.destination.into_destination();
        RoutingRule { name: self.name, filter: self.filter, destination }
    }
}

impl RoutingEngine {
    /// Applies a routing configuration: a default that it gives replaces the
    /// current one, and its rules are appended after the existing ones.
    pub fn apply_config(&mut self, config: RoutingConfig)
        ensures
            final(self)@.default == (match config.default {
                Some(d) => Some(configured_destination(d)),
                None => old(self)@.default,
            }),
            final(self)@.rules == old(self)@.rules + configured_rules(config),
    {
        let ghost added = configured_rules(config);
        let RoutingConfig { default, rules } = config;
        if let Some(d) = default {
            self.set_default_destination(d.into_destination());
        }
        if let Some(rs) = rules {
            let ghost start = self@.rules;
            let ghost dflt = self@.default;
            let ghost all = rs@;
            let ghost mut k: int = 0;
            let mut rest = rs;
            while rest.len() > 0
                invariant
                    0 <= k <= all.len(),
                    rest@ == all.subrange(k, all.len() as int),
                    self@.default == dflt,
                    self@.rules == start + all.subrange(0, k).map_values(|r: RuleConfig| configured_rule(r)),
                decreases rest@.len(),
            {
                let r = rest.remove(0);
                proof {
                    assert(r == all[k]);
                }
                self.add_routing_rule(r.into_rule());
                proof {
                    assert(all.subrange(0, k + 1).map_values(|r: RuleConfig| configured_rule(r))
                        =~= all.subrange(0, k).map_values(|r: RuleConfig| configured_rule(r)).push(configured_rule(all[k])));
                    k = k + 1;
                    assert(rest@ =~= all.subrange(k, all.len() as int));
                }
            }
            proof {
                assert(all.subrange(0, k) =~= all);
                assert(added =~= all.map_values(|r: RuleConfig| configured_rule(r)));
            }
        } else {
            assert(added =~= Seq::<RuleSpec>::empty());
            assert(self@.rules =~= self@.rules + added);
        }
    }
}

} // verus!
