//! Filter expressions: their wire form in JSON, a closed tree type, and
//! evaluation against an event.
use crate::event::{attribute, EventAttributes, EventModel};
use crate::json::{
    array_items, get_member, json_from_text, json_of, member, object_entries, parse_json,
    string_value, value_is_object, Json,
};
use crate::text::{has_prefix, has_suffix, is_prefix_of, is_suffix_of, same_text};
use vstd::prelude::*;

verus! {

broadcast use
    vstd::std_specs::vec::axiom_vec_decreases_to_view,
    vstd::std_specs::vec::axiom_vec_index_decreases,
    vstd::seq::axiom_seq_index_decreases,
;

/// Nesting levels of a filter that are evaluated; a node deeper than this
/// never matches.
pub const MAX_FILTER_DEPTH: usize = 32;

/// How an attribute's value is held against a filter's operand.
pub enum Comparison {
    Equals,
    StartsWith,
    EndsWith,
}

pub open spec fn compares(c: Comparison, actual: Seq<char>, operand: Seq<char>) -> bool {
    match c {
        Comparison::Equals => actual == operand,
        Comparison::StartsWith => is_prefix_of(operand, actual),
        Comparison::EndsWith => is_suffix_of(operand, actual),
    }
}

/// A filter expression. Each attribute test holds pairs of attribute name
/// and operand, and needs every pair to hold.
pub enum Filter {
    Exact(Vec<(String, String)>),
    Prefix(Vec<(String, String)>),
    Suffix(Vec<(String, String)>),
    All(Vec<Filter>),
    Any(Vec<Filter>),
    Not(Box<Filter>),
    /// A node of no recognised shape, or nested too deep: it never matches.
    Invalid,
}

/// Every pair names an attribute that compares as `c` with its operand.
pub open spec fn pairs_hold(c: Comparison, ps: Seq<(String, String)>, ev: EventModel) -> bool {
    forall|i: int| 0 <= i < ps.len() ==> compares(c, attribute(ev, (#[trigger] ps[i]).0@), ps[i].1@)
}

/// Whether filter `f` matches event `ev`.
pub open spec fn matches(f: Filter, ev: EventModel) -> bool
    decreases f, 0int,
{
    match f {
        Filter::Exact(ps) => pairs_hold(Comparison::Equals, ps@, ev),
        Filter::Prefix(ps) => pairs_hold(Comparison::StartsWith, ps@, ev),
        Filter::Suffix(ps) => pairs_hold(Comparison::EndsWith, ps@, ev),
        Filter::All(fs) => all_match(fs@, 0, ev),
        Filter::Any(fs) => any_match(fs@, 0, ev),
        Filter::Not(g) => !matches(*g, ev),
        Filter::Invalid => false,
    }
}

/// Every filter of `fs` from index `i` on matches `ev`.
pub open spec fn all_match(fs: Seq<Filter>, i: int, ev: EventModel) -> bool
    decreases fs, fs.len() - i,
{
    if i < 0 || i >= fs.len() {
        true
    } else {
        matches(fs[i], ev) && all_match(fs, i + 1, ev)
    }
}

/// Some filter of `fs` from index `i` on matches `ev`.
pub open spec fn any_match(fs: Seq<Filter>, i: int, ev: EventModel) -> bool
    decreases fs, fs.len() - i,
{
    if i < 0 || i >= fs.len() {
        false
    } else {
        matches(fs[i], ev) || any_match(fs, i + 1, ev)
    }
}

/// The value under an attribute test has the shape `{attr: string, ...}`:
/// an object whose every value is a string.
pub open spec fn operands_well_formed(j: Json) -> bool {
    match j {
        Json::Object(es) => forall|i: int| 0 <= i < es.len() ==> (#[trigger] es[i]).1 is Str,
        _ => false,
    }
}

/// Whether the entries of a JSON object compare as `c` with the event's
/// attributes of those names. A value of any other shape, an object with an
/// operand that is not a string among them, never matches.
pub open spec fn json_pairs_hold(c: Comparison, j: Json, ev: EventModel) -> bool {
    operands_well_formed(j) && forall|i: int|
        0 <= i < j->Object_0.len() ==> compares(
            c,
            attribute(ev, (#[trigger] j->Object_0[i]).0),
            j->Object_0[i].1->Str_0,
        )
}

/// Whether the JSON filter `j`, standing at nesting level `depth`, matches
/// `ev`. The first of the keys `exact`, `prefix`, `suffix`, `all`, `any` and
/// `not` that the node holds decides; a node with none of them, a value of
/// the wrong shape under the deciding key (attribute tests take an object
/// of strings, `all` and `any` an array, `not` an object), or a node past
/// the depth limit, does not match.
pub open spec fn json_matches(j: Json, ev: EventModel, depth: int) -> bool
    decreases MAX_FILTER_DEPTH - depth, 0int,
{
    if depth < 0 || depth >= MAX_FILTER_DEPTH {
        false
    } else if member(j, "exact"@) is Some {
        json_pairs_hold(Comparison::Equals, member(j, "exact"@)->0, ev)
    } else if member(j, "prefix"@) is Some {
        json_pairs_hold(Comparison::StartsWith, member(j, "prefix"@)->0, ev)
    } else if member(j, "suffix"@) is Some {
        json_pairs_hold(Comparison::EndsWith, member(j, "suffix"@)->0, ev)
    } else if member(j, "all"@) is Some {
        match member(j, "all"@)->0 {
            Json::Array(items) => json_all(items, 0, ev, depth + 1),
            _ => false,
        }
    } else if member(j, "any"@) is Some {
        match member(j, "any"@)->0 {
            Json::Array(items) => json_any(items, 0, ev, depth + 1),
            _ => false,
        }
    } else if member(j, "not"@) is Some {
        match member(j, "not"@)->0 {
            Json::Object(_) => !json_matches(member(j, "not"@)->0, ev, depth + 1),
            _ => false,
        }
    } else {
        false
    }
}

/// Every JSON filter of `items` from index `i` on matches `ev` at `depth`.
pub open spec fn json_all(items: Seq<Json>, i: int, ev: EventModel, depth: int) -> bool
    decreases MAX_FILTER_DEPTH - depth, items.len() - i,
{
    if i < 0 || i >= items.len() {
        true
    } else {
        json_matches(items[i], ev, depth) && json_all(items, i + 1, ev, depth)
    }
}

/// Some JSON filter of `items` from index `i` on matches `ev` at `depth`.
pub open spec fn json_any(items: Seq<Json>, i: int, ev: EventModel, depth: int) -> bool
    decreases MAX_FILTER_DEPTH - depth, items.len() - i,
{
    if i < 0 || i >= items.len() {
        false
    } else {
        json_matches(items[i], ev, depth) || json_any(items, i + 1, ev, depth)
    }
}

/// `all_match` and `any_match` as quantifiers over the indices from `i` on.
pub proof fn lemma_all_match(fs: Seq<Filter>, i: int, ev: EventModel)
    requires
        0 <= i <= fs.len(),
    ensures
        all_match(fs, i, ev) == forall|k: int| i <= k < fs.len() ==> #[trigger] matches(fs[k], ev),
        any_match(fs, i, ev) == exists|k: int| i <= k < fs.len() && #[trigger] matches(fs[k], ev),
    decreases fs.len() - i,
{
    if i < fs.len() {
        lemma_all_match(fs, i + 1, ev);
        if all_match(fs, i, ev) {
            assert forall|k: int| i <= k < fs.len() implies #[trigger] matches(fs[k], ev) by {
                if k > i {
                    assert(i + 1 <= k < fs.len());
                }
            }
        }
        if forall|k: int| i <= k < fs.len() ==> #[trigger] matches(fs[k], ev) {
            assert(matches(fs[i], ev));
            assert forall|k: int| i + 1 <= k < fs.len() implies #[trigger] matches(fs[k], ev) by {
                assert(i <= k < fs.len());
            }
        }
        if any_match(fs, i, ev) {
            if !matches(fs[i], ev) {
                let k = choose|k: int| i + 1 <= k < fs.len() && #[trigger] matches(fs[k], ev);
                assert(i <= k < fs.len());
            }
        }
        if exists|k: int| i <= k < fs.len() && #[trigger] matches(fs[k], ev) {
            let k = choose|k: int| i <= k < fs.len() && #[trigger] matches(fs[k], ev);
            if k > i {
                assert(i + 1 <= k < fs.len());
            }
        }
    }
}

/// `json_all` and `json_any` as quantifiers over the indices from `i` on.
pub proof fn lemma_json_all(items: Seq<Json>, i: int, ev: EventModel, depth: int)
    requires
        0 <= i <= items.len(),
    ensures
        json_all(items, i, ev, depth) == forall|k: int|
            i <= k < items.len() ==> #[trigger] json_matches(items[k], ev, depth),
        json_any(items, i, ev, depth) == exists|k: int|
            i <= k < items.len() && #[trigger] json_matches(items[k], ev, depth),
    decreases items.len() - i,
{
    if i < items.len() {
        lemma_json_all(items, i + 1, ev, depth);
        if json_all(items, i, ev, depth) {
            assert forall|k: int| i <= k < items.len() implies #[trigger] json_matches(items[k], ev, depth) by {
                if k > i {
                    assert(i + 1 <= k < items.len());
                }
            }
        }
        if forall|k: int| i <= k < items.len() ==> #[trigger] json_matches(items[k], ev, depth) {
            assert(json_matches(items[i], ev, depth));
            assert forall|k: int| i + 1 <= k < items.len() implies #[trigger] json_matches(items[k], ev, depth) by {
                assert(i <= k < items.len());
            }
        }
        if json_any(items, i, ev, depth) {
            if !json_matches(items[i], ev, depth) {
                let k = choose|k: int| i + 1 <= k < items.len() && #[trigger] json_matches(items[k], ev, depth);
                assert(i <= k < items.len());
            }
        }
        if exists|k: int| i <= k < items.len() && #[trigger] json_matches(items[k], ev, depth) {
            let k = choose|k: int| i <= k < items.len() && #[trigger] json_matches(items[k], ev, depth);
            if k > i {
                assert(i + 1 <= k < items.len());
            }
        }
    }
}

/// Whether a filter written as JSON text matches `ev`: text that is not
/// JSON matches nothing.
pub open spec fn text_matches(text: Seq<char>, ev: EventModel) -> bool {
    match json_from_text(text) {
        Some(j) => json_matches(j, ev, 0),
        None => false,
    }
}

/// The entries of a JSON object as attribute name and operand.
fn operand_pairs(v: &serde_json::Value) -> (r: Option<Vec<(String, String)>>)
    ensures
        r is Some == operands_well_formed(json_of(*v)),
        r is Some ==> r->0@.len() == json_of(*v)->Object_0.len(),
        r is Some ==> forall|i: int|
            0 <= i < r->0@.len() ==> (#[trigger] r->0@[i]).0@ == json_of(*v)->Object_0[i].0
                && r->0@[i].1@ == json_of(*v)->Object_0[i].1->Str_0,
{
    let entries = match object_entries(v) {
        Some(es) => es,
        None => return None,
    };
    let ghost es = json_of(*v)->Object_0;
    let mut pairs: Vec<(String, String)> = Vec::new();
    let mut i: usize = 0;
    while i < entries.len()
        invariant
            json_of(*v) is Object,
            es == json_of(*v)->Object_0,
            entries@.len() == es.len(),
            forall|k: int|
                0 <= k < entries@.len() ==> (#[trigger] entries@[k]).0@ == es[k].0
                    && json_of(entries@[k].1) == es[k].1,
            0 <= i <= entries@.len(),
            pairs@.len() == i,
            forall|k: int|
                0 <= k < i ==> (#[trigger] pairs@[k]).0@ == es[k].0
                    && es[k].1 is Str && pairs@[k].1@ == es[k].1->Str_0,
        decreases entries@.len() - i,
    {
        let operand = match string_value(&entries[i].1) {
            Some(s) => s.to_string(),
            None => {
                proof {
                    assert(json_of(entries@[i as int].1) == es[i as int].1);
                    assert(!(es[i as int].1 is Str));
                    assert(!operands_well_formed(json_of(*v)));
                }
                return None;
            },
        };
        pairs.push((entries[i].0.clone(), operand));
        i = i + 1;
    }
    proof {
        assert forall|k: int| 0 <= k < es.len() implies (#[trigger] es[k]).1 is Str by {
            assert(pairs@[k].0@ == es[k].0);
        }
    }
    Some(pairs)
}

proof fn lemma_pairs_agree(c: Comparison, ps: Seq<(String, String)>, j: Json, ev: EventModel)
    requires
        operands_well_formed(j),
        ps.len() == j->Object_0.len(),
        forall|i: int|
            0 <= i < ps.len() ==> (#[trigger] ps[i]).0@ == j->Object_0[i].0
                && ps[i].1@ == j->Object_0[i].1->Str_0,
    ensures
        pairs_hold(c, ps, ev) == json_pairs_hold(c, j, ev),
{
    let es = j->Object_0;
    if pairs_hold(c, ps, ev) {
        assert forall|i: int| 0 <= i < es.len() implies compares(
            c,
            attribute(ev, (#[trigger] es[i]).0),
            es[i].1->Str_0,
        ) by {
            assert(ps[i].0@ == es[i].0);
        }
    }
    if json_pairs_hold(c, j, ev) {
        assert forall|i: int| 0 <= i < ps.len() implies compares(
            c,
            attribute(ev, (#[trigger] ps[i]).0@),
            ps[i].1@,
        ) by {
            assert(ps[i].0@ == es[i].0);
        }
    }
}

impl Filter {
    /// The attribute test of kind `c` that the JSON value `v` expresses:
    /// one that never matches where `v` is not an object of strings.
    fn attribute_test(v: &serde_json::Value, c: Comparison) -> (r: Filter)
        ensures
            forall|ev: EventModel| matches(r, ev) == json_pairs_hold(c, json_of(*v), ev),
    {
        match operand_pairs(v) {
            Some(ps) => {
                proof {
                    assert forall|ev: EventModel|
                        pairs_hold(c, ps@, ev) == json_pairs_hold(c, json_of(*v), ev) by {
                        lemma_pairs_agree(c, ps@, json_of(*v), ev);
                    }
                }
                match c {
                    Comparison::Equals => Filter::Exact(ps),
                    Comparison::StartsWith => Filter::Prefix(ps),
                    Comparison::EndsWith => Filter::Suffix(ps),
                }
            },
            None => Filter::Invalid,
        }
    }

    /// The filter that the JSON value `v`, standing at nesting level
    /// `depth`, expresses.
    pub fn from_json(v: &serde_json::Value, depth: usize) -> (r: Filter)
        requires
            depth <= MAX_FILTER_DEPTH,
        ensures
            forall|ev: EventModel| matches(r, ev) == json_matches(json_of(*v), ev, depth as int),
        decreases MAX_FILTER_DEPTH - depth, 0int,
    {
        if depth >= MAX_FILTER_DEPTH {
            return Filter::Invalid;
        }
        if let Some(x) = get_member(v, "exact") {
            return Filter::attribute_test(x, Comparison::Equals);
        }
        if let Some(x) = get_member(v, "prefix") {
            return Filter::attribute_test(x, Comparison::StartsWith);
        }
        if let Some(x) = get_member(v, "suffix") {
            return Filter::attribute_test(x, Comparison::EndsWith);
        }
        if let Some(x) = get_member(v, "all") {
            return match Filter::children(x, depth + 1) {
                Some(fs) => {
                    proof {
                        let js = json_of(*x)->Array_0;
                        assert forall|ev: EventModel|
                            matches(Filter::All(fs), ev) == json_matches(json_of(*v), ev, depth as int) by {
                            lemma_json_all(js, 0, ev, depth + 1);
                            lemma_all_match(fs@, 0, ev);
                            if json_matches(json_of(*v), ev, depth as int) {
                                assert forall|i: int| 0 <= i < fs@.len() implies #[trigger] matches(fs@[i], ev) by {
                                    assert(json_matches(js[i], ev, depth + 1));
                                }
                            }
                            if matches(Filter::All(fs), ev) {
                                assert forall|i: int| 0 <= i < js.len() implies #[trigger] json_matches(js[i], ev, depth + 1) by {
                                    assert(matches(fs@[i], ev));
                                }
                            }
                        }
                    }
                    Filter::All(fs)
                },
                None => Filter::Invalid,
            };
        }
        if let Some(x) = get_member(v, "any") {
            return match Filter::children(x, depth + 1) {
                Some(fs) => {
                    proof {
                        let js = json_of(*x)->Array_0;
                        assert forall|ev: EventModel|
                            matches(Filter::Any(fs), ev) == json_matches(json_of(*v), ev, depth as int) by {
                            lemma_json_all(js, 0, ev, depth + 1);
                            lemma_all_match(fs@, 0, ev);
                            if json_matches(json_of(*v), ev, depth as int) {
                                let i = choose|i: int| 0 <= i < js.len() && #[trigger] json_matches(js[i], ev, depth + 1);
                                assert(matches(fs@[i], ev));
                            }
                            if matches(Filter::Any(fs), ev) {
                                let i = choose|i: int| 0 <= i < fs@.len() && #[trigger] matches(fs@[i], ev);
                                assert(json_matches(js[i], ev, depth + 1));
                            }
                        }
                    }
                    Filter::Any(fs)
                },
                None => Filter::Invalid,
            };
        }
        if let Some(x) = get_member(v, "not") {
            if !value_is_object(x) {
                return Filter::Invalid;
            }
            let g = Filter::from_json(x, depth + 1);
            let r = Filter::Not(Box::new(g));
            assert forall|ev: EventModel| matches(r, ev) == !matches(g, ev) by {
                reveal_with_fuel(matches, 1);
            }
            return r;
        }
        Filter::Invalid
    }

    /// The filters that the items of a JSON array express, each at level
    /// `depth`; `None` where `v` is not an array.
    fn children(v: &serde_json::Value, depth: usize) -> (r: Option<Vec<Filter>>)
        requires
            0 < depth <= MAX_FILTER_DEPTH,
        ensures
            r is Some == json_of(*v) is Array,
            r is Some ==> r->0@.len() == json_of(*v)->Array_0.len(),
            r is Some ==> forall|i: int, ev: EventModel|
                0 <= i < r->0@.len() ==> #[trigger] matches(r->0@[i], ev)
                    == json_matches(json_of(*v)->Array_0[i], ev, depth as int),
        decreases MAX_FILTER_DEPTH - depth, 1int,
    {
        let items = match array_items(v) {
            Some(items) => items,
            None => return None,
        };
        let ghost js = json_of(*v)->Array_0;
        let mut fs: Vec<Filter> = Vec::new();
        let mut i: usize = 0;
        while i < items.len()
            invariant
                items@.len() == js.len(),
                forall|k: int| 0 <= k < items@.len() ==> json_of(#[trigger] items@[k]) == js[k],
                0 < depth <= MAX_FILTER_DEPTH,
                0 <= i <= items@.len(),
                fs@.len() == i,
                forall|k: int, ev: EventModel|
                    0 <= k < i ==> #[trigger] matches(fs@[k], ev) == json_matches(js[k], ev, depth as int),
            decreases items@.len() - i,
        {
            let f = Filter::from_json(&items[i], depth);
            fs.push(f);
            i = i + 1;
        }
        Some(fs)
    }
}

/// Whether every pair names an attribute of `ev` that compares as `c`
/// with its operand.
fn pairs_test(c: Comparison, ps: &Vec<(String, String)>, ev: &EventAttributes) -> (r: bool)
    ensures
        r == pairs_hold(c, ps@, ev@),
{
    let mut i: usize = 0;
    while i < ps.len()
        invariant
            0 <= i <= ps@.len(),
            forall|k: int| 0 <= k < i ==> compares(c, attribute(ev@, (#[trigger] ps@[k]).0@), ps@[k].1@),
        decreases ps@.len() - i,
    {
        let actual = ev.attribute(ps[i].0.as_str());
        let operand = ps[i].1.as_str();
        let holds = match c {
            Comparison::Equals => same_text(actual, operand),
            Comparison::StartsWith => has_prefix(actual, operand),
            Comparison::EndsWith => has_suffix(actual, operand),
        };
        if !holds {
            return false;
        }
        i = i + 1;
    }
    true
}

impl Filter {
    /// The filter written as JSON text in `text`: one that never matches
    /// where the text is not JSON.
    pub fn parse(text: &str) -> (r: Filter)
        ensures
            forall|ev: EventModel| matches(r, ev) == text_matches(text@, ev),
    {
        match parse_json(text) {
            Some(v) => Filter::from_json(&v, 0),
            None => Filter::Invalid,
        }
    }

    /// Whether this filter matches the event.
    pub fn evaluate(&self, ev: &EventAttributes) -> (r: bool)
        ensures
            r == matches(*self, ev@),
        decreases self,
    {
        match self {
            Filter::Exact(ps) => pairs_test(Comparison::Equals, ps, ev),
            Filter::Prefix(ps) => pairs_test(Comparison::StartsWith, ps, ev),
            Filter::Suffix(ps) => pairs_test(Comparison::EndsWith, ps, ev),
            Filter::All(fs) => {
                let mut i: usize = 0;
                while i < fs.len()
                    invariant
                        0 <= i <= fs@.len(),
                        *self == Filter::All(*fs),
                        forall|k: int| 0 <= k < i ==> #[trigger] matches(fs@[k], ev@),
                    decreases fs@.len() - i,
                {
                    proof {
                        let f = *self;
                        assert(decreases_to!(f => f->All_0));
                        assert(decreases_to!(f => f->All_0@));
                    }
                    if !fs[i].evaluate(ev) {
                        proof {
                            assert(!matches(fs@[i as int], ev@));
                            reveal_with_fuel(matches, 1);
                            assert(matches(*self, ev@) == all_match(fs@, 0, ev@));
                            lemma_all_match(fs@, 0, ev@);
                        }
                        return false;
                    }
                    i = i + 1;
                }
                proof {
                    lemma_all_match(fs@, 0, ev@);
                }
                true
            },
            Filter::Any(fs) => {
                let mut i: usize = 0;
                while i < fs.len()
                    invariant
                        0 <= i <= fs@.len(),
                        *self == Filter::Any(*fs),
                        forall|k: int| 0 <= k < i ==> !#[trigger] matches(fs@[k], ev@),
                    decreases fs@.len() - i,
                {
                    proof {
                        let f = *self;
                        assert(decreases_to!(f => f->Any_0));
                        assert(decreases_to!(f => f->Any_0@));
                    }
                    if fs[i].evaluate(ev) {
                        proof {
                            assert(matches(fs@[i as int], ev@));
                            reveal_with_fuel(matches, 1);
                            assert(matches(*self, ev@) == any_match(fs@, 0, ev@));
                            lemma_all_match(fs@, 0, ev@);
                        }
                        return true;
                    }
                    i = i + 1;
                }
                proof {
                    lemma_all_match(fs@, 0, ev@);
                }
                false
            },
            Filter::Not(g) => !g.evaluate(ev),
            Filter::Invalid => false,
        }
    }
}

/// A filter node with the single key `key` whose value is `value`.
pub open spec fn node(key: Seq<char>, value: Json) -> Json {
    Json::Object(seq![(key, value)])
}

/// An attribute test of kind `key` on the one attribute `name`.
pub open spec fn single_test(key: Seq<char>, name: Seq<char>, operand: Seq<char>) -> Json {
    node(key, node(name, Json::Str(operand)))
}

proof fn lemma_single_entry(key: Seq<char>, value: Json, k: Seq<char>)
    ensures
        member(node(key, value), k) == (if k == key { Some(value) } else { None::<Json> }),
{
    let es = seq![(key, value)];
    reveal_with_fuel(crate::json::entry_value, 2);
    assert(es.drop_first() =~= Seq::<(Seq<char>, Json)>::empty());
}

proof fn lemma_keywords_distinct()
    ensures
        "exact"@ != "prefix"@,
        "exact"@ != "suffix"@,
        "exact"@ != "all"@,
        "exact"@ != "any"@,
        "exact"@ != "not"@,
        "prefix"@ != "suffix"@,
        "prefix"@ != "all"@,
        "prefix"@ != "any"@,
        "prefix"@ != "not"@,
        "suffix"@ != "all"@,
        "suffix"@ != "any"@,
        "suffix"@ != "not"@,
        "all"@ != "any"@,
        "all"@ != "not"@,
        "any"@ != "not"@,
{
    reveal_strlit("exact");
    reveal_strlit("prefix");
    reveal_strlit("suffix");
    reveal_strlit("all");
    reveal_strlit("any");
    reveal_strlit("not");
    assert("exact"@[0] != "prefix"@[0]);
    assert("exact"@[0] != "suffix"@[0]);
    assert("exact"@[0] != "all"@[0]);
    assert("exact"@[0] != "any"@[0]);
    assert("exact"@[0] != "not"@[0]);
    assert("prefix"@[0] != "suffix"@[0]);
    assert("prefix"@[0] != "all"@[0]);
    assert("prefix"@[0] != "any"@[0]);
    assert("prefix"@[0] != "not"@[0]);
    assert("suffix"@[0] != "all"@[0]);
    assert("suffix"@[0] != "any"@[0]);
    assert("suffix"@[0] != "not"@[0]);
    assert("all"@[1] != "any"@[1]);
    assert("all"@[0] != "not"@[0]);
    assert("any"@[0] != "not"@[0]);
}

proof fn lemma_type_attribute(ev: EventModel)
    ensures
        attribute(ev, "type"@) == ev.ty,
{
}

/// An `exact` test on `type` matches exactly the events whose type is the
/// operand.
pub proof fn law_exact_type(operand: Seq<char>, ev: EventModel, depth: int)
    requires
        0 <= depth < MAX_FILTER_DEPTH,
    ensures
        json_matches(single_test("exact"@, "type"@, operand), ev, depth) == (ev.ty == operand),
{
    let inner = node("type"@, Json::Str(operand));
    lemma_single_entry("exact"@, inner, "exact"@);
    lemma_type_attribute(ev);
    if json_matches(single_test("exact"@, "type"@, operand), ev, depth) {
        assert(inner->Object_0[0] == ("type"@, Json::Str(operand)));
    }
}

/// A `prefix` test on `type` matches exactly the events whose type starts
/// with the operand.
pub proof fn law_prefix_type(operand: Seq<char>, ev: EventModel, depth: int)
    requires
        0 <= depth < MAX_FILTER_DEPTH,
    ensures
        json_matches(single_test("prefix"@, "type"@, operand), ev, depth) == is_prefix_of(operand, ev.ty),
{
    let inner = node("type"@, Json::Str(operand));
    lemma_keywords_distinct();
    lemma_single_entry("prefix"@, inner, "exact"@);
    lemma_single_entry("prefix"@, inner, "prefix"@);
    lemma_type_attribute(ev);
    if json_matches(single_test("prefix"@, "type"@, operand), ev, depth) {
        assert(inner->Object_0[0] == ("type"@, Json::Str(operand)));
    }
}

/// A `suffix` test on `type` matches exactly the events whose type ends
/// with the operand.
pub proof fn law_suffix_type(operand: Seq<char>, ev: EventModel, depth: int)
    requires
        0 <= depth < MAX_FILTER_DEPTH,
    ensures
        json_matches(single_test("suffix"@, "type"@, operand), ev, depth) == is_suffix_of(operand, ev.ty),
{
    let inner = node("type"@, Json::Str(operand));
    lemma_keywords_distinct();
    lemma_single_entry("suffix"@, inner, "exact"@);
    lemma_single_entry("suffix"@, inner, "prefix"@);
    lemma_single_entry("suffix"@, inner, "suffix"@);
    lemma_type_attribute(ev);
    if json_matches(single_test("suffix"@, "type"@, operand), ev, depth) {
        assert(inner->Object_0[0] == ("type"@, Json::Str(operand)));
    }
}

/// `all` over an empty list matches every event; `any` over an empty list
/// matches none.
pub proof fn law_empty_lists(ev: EventModel, depth: int)
    requires
        0 <= depth < MAX_FILTER_DEPTH,
    ensures
        json_matches(node("all"@, Json::Array(Seq::empty())), ev, depth),
        !json_matches(node("any"@, Json::Array(Seq::empty())), ev, depth),
{
    lemma_keywords_distinct();
    lemma_single_entry("all"@, Json::Array(Seq::empty()), "exact"@);
    lemma_single_entry("all"@, Json::Array(Seq::empty()), "prefix"@);
    lemma_single_entry("all"@, Json::Array(Seq::empty()), "suffix"@);
    lemma_single_entry("all"@, Json::Array(Seq::empty()), "all"@);
    lemma_single_entry("any"@, Json::Array(Seq::empty()), "exact"@);
    lemma_single_entry("any"@, Json::Array(Seq::empty()), "prefix"@);
    lemma_single_entry("any"@, Json::Array(Seq::empty()), "suffix"@);
    lemma_single_entry("any"@, Json::Array(Seq::empty()), "all"@);
    lemma_single_entry("any"@, Json::Array(Seq::empty()), "any"@);
    assert(json_all(Seq::empty(), 0, ev, depth + 1));
    assert(!json_any(Seq::empty(), 0, ev, depth + 1));
}

/// `not` around any filter node `f` (an object) matches exactly where `f`,
/// one level deeper, does not.
pub proof fn law_not_inverts(f: Json, ev: EventModel, depth: int)
    requires
        0 <= depth < MAX_FILTER_DEPTH,
        f is Object,
    ensures
        json_matches(node("not"@, f), ev, depth) == !json_matches(f, ev, depth + 1),
{
    lemma_keywords_distinct();
    lemma_single_entry("not"@, f, "exact"@);
    lemma_single_entry("not"@, f, "prefix"@);
    lemma_single_entry("not"@, f, "suffix"@);
    lemma_single_entry("not"@, f, "all"@);
    lemma_single_entry("not"@, f, "any"@);
    lemma_single_entry("not"@, f, "not"@);
}

/// A closed `Not` node matches exactly where its child does not.
pub proof fn law_not_filter_inverts(f: Filter, ev: EventModel)
    requires
        f is Not,
    ensures
        matches(f, ev) == !matches(*f->Not_0, ev),
{
}

} // verus!
