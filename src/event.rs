//! The attributes of an event, read by name.
use crate::text::same_text;
use vstd::prelude::*;

verus! {

/// An event's attributes: the core ones and the extensions by name.
pub struct EventModel {
    pub ty: Seq<char>,
    pub source: Seq<char>,
    pub id: Seq<char>,
    pub subject: Option<Seq<char>>,
    pub extensions: Map<Seq<char>, Seq<char>>,
}

/// The value of attribute `name`; a missing one reads as the empty string.
pub open spec fn attribute(ev: EventModel, name: Seq<char>) -> Seq<char> {
    if name == "type"@ {
        ev.ty
    } else if name == "source"@ {
        ev.source
    } else if name == "id"@ {
        ev.id
    } else if name == "subject"@ {
        match ev.subject {
            Some(s) => s,
            None => Seq::empty(),
        }
    } else if ev.extensions.contains_key(name) {
        ev.extensions[name]
    } else {
        Seq::empty()
    }
}

/// The value of the first pair with key `k`.
pub open spec fn pair_value(ps: Seq<(String, String)>, k: Seq<char>) -> Option<Seq<char>>
    decreases ps.len(),
{
    if ps.len() == 0 {
        None
    } else if ps[0].0@ == k {
        Some(ps[0].1@)
    } else {
        pair_value(ps.drop_first(), k)
    }
}

/// The attributes of a parsed event.
pub struct EventAttributes {
    pub ty: String,
    pub source: String,
    pub id: String,
    pub subject: Option<String>,
    /// Extension attributes as name and value; where a name occurs twice,
    /// the first pair counts.
    pub extensions: Vec<(String, String)>,
}

impl View for EventAttributes {
    type V = EventModel;

    open spec fn view(&self) -> EventModel {
        EventModel {
            ty: self.ty@,
            source: self.source@,
            id: self.id@,
            subject: match self.subject {
                Some(s) => Some(s@),
                None => None,
            },
            extensions: Map::new(
                |k: Seq<char>| pair_value(self.extensions@, k) is Some,
                |k: Seq<char>| pair_value(self.extensions@, k)->0,
            ),
        }
    }
}

/// What cloudevents-sdk reads from a JSON text: nothing where the text is
/// not a CloudEvent.
pub uninterp spec fn parsed_event(s: Seq<char>) -> Option<EventModel>;

/// Relies on cloudevents-sdk: `serde_json::from_str::<Event>`, then the
/// event's `ty`, `source`, `id`, `subject` and `iter_extensions`, each
/// extension value written by its `Display`. The extensions live in a hash
/// map, so their order here is open; their names are distinct.
#[verifier::external_body]
pub(crate) fn parse_event(text: &str) -> (r: Option<EventAttributes>)
    ensures
        r is Some == parsed_event(text@) is Some,
        r is Some ==> r->0@ == parsed_event(text@)->0,
{
    serde_json::from_str::<cloudevents::Event>(text).ok().map(|e| EventAttributes {
        ty: cloudevents::AttributesReader::ty(&e).to_string(),
        source: cloudevents::AttributesReader::source(&e).to_string(),
        id: cloudevents::AttributesReader::id(&e).to_string(),
        subject: cloudevents::AttributesReader::subject(&e).map(|s| s.to_string()),
        extensions: e.iter_extensions().map(|(k, v)| (k.to_string(), v.to_string())).collect(),
    })
}

impl EventAttributes {
    /// The value of extension `name`, if the event has it.
    pub fn extension(&self, name: &str) -> (r: Option<&str>)
        ensures
            r is Some == self@.extensions.contains_key(name@),
            r is Some ==> r->0@ == self@.extensions[name@],
    {
        let ghost ps = self.extensions@;
        let n = self.extensions.len();
        let mut i: usize = 0;
        assert(ps.subrange(0, n as int) =~= ps);
        while i < n
            invariant
                n == ps.len(),
                ps == self.extensions@,
                0 <= i <= n,
                pair_value(ps, name@) == pair_value(ps.subrange(i as int, n as int), name@),
            decreases n - i,
        {
            assert(ps.subrange(i as int, n as int).drop_first() =~= ps.subrange(i + 1, n as int));
            if same_text(self.extensions[i].0.as_str(), name) {
                return Some(self.extensions[i].1.as_str());
            }
            i = i + 1;
        }
        None
    }

    /// The value of attribute `name`: `type`, `source`, `id` and `subject`
    /// are core attributes, any other name an extension; what the event
    /// lacks reads as the empty string.
    pub fn attribute(&self, name: &str) -> (r: &str)
        ensures
            r@ == attribute(self@, name@),
    {
        proof {
            reveal_strlit("");
        }
        if same_text(name, "type") {
            self.ty.as_str()
        } else if same_text(name, "source") {
            self.source.as_str()
        } else if same_text(name, "id") {
            self.id.as_str()
        } else if same_text(name, "subject") {
            match &self.subject {
                Some(s) => s.as_str(),
                None => "",
            }
        } else {
            match self.extension(name) {
                Some(v) => v,
                None => "",
            }
        }
    }
}

} // verus!
