//! The top level of a JSON document, as far as the bot reads one.

use vstd::prelude::*;

use crate::text::{first_value, same};

verus! {

/// A member's value. What stands inside a list or an object is never read, so only its kind
/// is kept.
pub enum JsonScalar {
    Null,
    Bool(bool),
    /// A number: as an unsigned integer where it is one, and as the bits of the
    /// double-precision number that it is read as.
    Number(Option<u64>, Option<u64>),
    Text(String),
    List,
    Object,
}

/// A [`JsonScalar`] with its text as a sequence of characters.
pub enum JsonScalarView {
    Null,
    Bool(bool),
    Number(Option<u64>, Option<u64>),
    Text(Seq<char>),
    List,
    Object,
}

impl View for JsonScalar {
    type V = JsonScalarView;

    open spec fn view(&self) -> JsonScalarView {
        match self {
            JsonScalar::Null => JsonScalarView::Null,
            JsonScalar::Bool(b) => JsonScalarView::Bool(*b),
            JsonScalar::Number(u, d) => JsonScalarView::Number(*u, *d),
            JsonScalar::Text(s) => JsonScalarView::Text(s@),
            JsonScalar::List => JsonScalarView::List,
            JsonScalar::Object => JsonScalarView::Object,
        }
    }
}

/// A JSON document: an object's members, or something that has none.
pub enum JsonDoc {
    Object(Vec<(String, JsonScalar)>),
    Other,
}

/// A [`JsonDoc`] with its texts as sequences of characters.
pub enum JsonDocView {
    Object(Seq<(Seq<char>, JsonScalarView)>),
    Other,
}

impl View for JsonDoc {
    type V = JsonDocView;

    open spec fn view(&self) -> JsonDocView {
        match self {
            JsonDoc::Object(members) => JsonDocView::Object(
                members@.map_values(|m: (String, JsonScalar)| (m.0@, m.1@)),
            ),
            JsonDoc::Other => JsonDocView::Other,
        }
    }
}

/// The value of the member called `key`, where the document is an object that has one.
pub open spec fn member(doc: JsonDocView, key: Seq<char>) -> Option<JsonScalarView> {
    match doc {
        JsonDocView::Object(members) => first_value(members, key),
        JsonDocView::Other => None,
    }
}

/// The view of a value that may be missing.
pub open spec fn value_view(v: Option<&JsonScalar>) -> Option<JsonScalarView> {
    match v {
        Some(x) => Some(x@),
        None => None,
    }
}

impl JsonDoc {
    /// The value of the member called `key`.
    pub fn get(&self, key: &str) -> (r: Option<&JsonScalar>)
        ensures
            value_view(r) == member(self@, key@),
    {
        match self {
            JsonDoc::Object(members) => {
                let ghost all = members@.map_values(|m: (String, JsonScalar)| (m.0@, m.1@));
                let mut i: usize = 0;
                assert(all.skip(0) == all);
                while i < members.len()
                    invariant
                        i <= members@.len(),
                        all == members@.map_values(|m: (String, JsonScalar)| (m.0@, m.1@)),
                        self@ == JsonDocView::Object(all),
                        first_value(all, key@) == first_value(all.skip(i as int), key@),
                    decreases members@.len() - i,
                {
                    assert(all.skip(i as int)[0] == all[i as int]);
                    if same(members[i].0.as_str(), key) {
                        return Some(&members[i].1);
                    }
                    assert(all.skip(i as int).drop_first() == all.skip(i + 1));
                    i = i + 1;
                }
                None
            },
            JsonDoc::Other => None,
        }
    }
}

} // verus!
