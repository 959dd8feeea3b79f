//! A plain model of JSON values, as they travel through the library.

use crate::text::spells;
use vstd::prelude::*;

verus! {

/// `serde_json::Number`: a JSON number. The library carries such numbers and
/// never reads them.
#[verifier::external_type_specification]
#[verifier::external_body]
pub struct ExNumber(serde_json::Number);

/// `Clone::clone` of `serde_json::Number`: the copy is the same number.
pub assume_specification[ <serde_json::Number as std::clone::Clone>::clone ](
    number: &serde_json::Number,
) -> (copy: serde_json::Number)
    ensures
        copy == *number,
;

/// A JSON value. An object is the list of its entries, in the order in which
/// they were written down.
#[derive(Debug, PartialEq)]
pub enum Json {
    Null,
    Bool(bool),
    Number(serde_json::Number),
    Text(String),
    Array(Vec<Json>),
    Object(Vec<(String, Json)>),
}

/// What a `Json` value says.
pub enum JsonView {
    Null,
    Bool(bool),
    Number(serde_json::Number),
    Text(Seq<char>),
    Array(Seq<JsonView>),
    Object(Seq<(Seq<char>, JsonView)>),
}

impl View for Json {
    type V = JsonView;

    open spec fn view(&self) -> JsonView {
        said_by(*self)
    }
}

/// What a value says: what its texts spell, and what its parts say.
pub open spec fn said_by(value: Json) -> JsonView
    decreases value,
{
    match value {
        Json::Null => JsonView::Null,
        Json::Bool(b) => JsonView::Bool(b),
        Json::Number(n) => JsonView::Number(n),
        Json::Text(s) => JsonView::Text(s@),
        Json::Array(items) => JsonView::Array(
            Seq::new(
                items@.len(),
                |i: int|
                    if 0 <= i < items@.len() {
                        said_by(items@[i])
                    } else {
                        JsonView::Null
                    },
            ),
        ),
        Json::Object(entries) => JsonView::Object(
            Seq::new(
                entries@.len(),
                |i: int|
                    if 0 <= i < entries@.len() {
                        (entries@[i].0@, said_by(entries@[i].1))
                    } else {
                        (Seq::<char>::empty(), JsonView::Null)
                    },
            ),
        ),
    }
}

/// What a list of values says.
pub open spec fn item_views(items: Seq<Json>) -> Seq<JsonView> {
    items.map_values(|item: Json| item@)
}

/// What a list of entries says.
pub open spec fn entry_views(entries: Seq<(String, Json)>) -> Seq<(Seq<char>, JsonView)> {
    entries.map_values(|e: (String, Json)| (e.0@, e.1@))
}

/// An array says what its items say, and an object what its entries say.
pub proof fn lemma_view_of_lists(value: Json)
    ensures
        value matches Json::Array(items) ==> value@ == JsonView::Array(item_views(items@)),
        value matches Json::Object(entries) ==> value@ == JsonView::Object(entry_views(entries@)),
{
    match value {
        Json::Array(items) => {
            assert(value@->Array_0 =~= item_views(items@));
        },
        Json::Object(entries) => {
            let said = value@->Object_0;
            assert forall|i: int| 0 <= i < said.len() implies said[i] == entry_views(
                entries@,
            )[i] by {
                assert(said[i] == (entries@[i].0@, entries@[i].1@));
            }
            assert(said =~= entry_views(entries@));
        },
        _ => {},
    }
}

/// The value of the first entry that is filed under `key`.
pub open spec fn lookup(entries: Seq<(Seq<char>, JsonView)>, key: Seq<char>) -> Option<JsonView>
    decreases entries.len(),
{
    if entries.len() == 0 {
        None
    } else if entries[0].0 == key {
        Some(entries[0].1)
    } else {
        lookup(entries.drop_first(), key)
    }
}

/// Looks a key up in a list of entries: the value of the first entry that is
/// filed under it.
pub fn find<'a>(entries: &'a Vec<(String, Json)>, key: &str) -> (value: Option<&'a Json>)
    ensures
        match value {
            Some(found) => lookup(entry_views(entries@), key@) == Some(found@),
            None => lookup(entry_views(entries@), key@) is None,
        },
{
    let ghost all = entry_views(entries@);
    let mut i: usize = 0;
    proof {
        assert(all.skip(0) =~= all);
    }
    while i < entries.len()
        invariant
            i <= entries.len(),
            all == entry_views(entries@),
            lookup(all, key@) == lookup(all.skip(i as int), key@),
        decreases entries.len() - i,
    {
        proof {
            assert(all.skip(i as int).drop_first() =~= all.skip(i + 1));
        }
        if spells(&entries[i].0, key) {
            return Some(&entries[i].1);
        }
        i += 1;
    }
    None
}

impl Clone for Json {
    /// A copy that says what this value says.
    fn clone(&self) -> (copy: Json)
        ensures
            copy@ == self@,
    {
        self.duplicate()
    }
}

impl Json {
    /// A copy of this value, made part by part.
    fn duplicate(&self) -> (copy: Json)
        ensures
            copy@ == self@,
        decreases self,
    {
        match self {
            Json::Null => Json::Null,
            Json::Bool(b) => Json::Bool(*b),
            Json::Number(n) => Json::Number(n.clone()),
            Json::Text(s) => Json::Text(s.clone()),
            Json::Array(items) => {
                let mut copies: Vec<Json> = Vec::new();
                let mut i: usize = 0;
                while i < items.len()
                    invariant
                        i <= items.len(),
                        self is Array,
                        self->Array_0 == items,
                        item_views(copies@) == item_views(items@).take(i as int),
                    decreases items.len() - i,
                {
                    assert(decreases_to!(self => self->Array_0@[i as int]));
                    let copy = items[i].duplicate();
                    proof {
                        assert(item_views(copies@.push(copy)) =~= item_views(copies@).push(copy@));
                        assert(item_views(items@).take(i + 1) =~= item_views(items@).take(
                            i as int,
                        ).push(items@[i as int]@));
                    }
                    copies.push(copy);
                    i += 1;
                }
                proof {
                    assert(item_views(copies@) =~= item_views(items@));
                    lemma_view_of_lists(*self);
                    lemma_view_of_lists(Json::Array(copies));
                }
                Json::Array(copies)
            },
            Json::Object(entries) => {
                let mut copies: Vec<(String, Json)> = Vec::new();
                let mut i: usize = 0;
                while i < entries.len()
                    invariant
                        i <= entries.len(),
                        self is Object,
                        self->Object_0 == entries,
                        entry_views(copies@) == entry_views(entries@).take(i as int),
                    decreases entries.len() - i,
                {
                    assert(decreases_to!(self => self->Object_0@[i as int].1));
                    let copy = (entries[i].0.clone(), entries[i].1.duplicate());
                    proof {
                        assert(entry_views(copies@.push(copy)) =~= entry_views(copies@).push(
                            (copy.0@, copy.1@),
                        ));
                        assert(entry_views(entries@).take(i + 1) =~= entry_views(entries@).take(
                            i as int,
                        ).push((entries@[i as int].0@, entries@[i as int].1@)));
                    }
                    copies.push(copy);
                    i += 1;
                }
                proof {
                    assert(entry_views(copies@) =~= entry_views(entries@));
                    lemma_view_of_lists(*self);
                    lemma_view_of_lists(Json::Object(copies));
                }
                Json::Object(copies)
            },
        }
    }
}

} // verus!
