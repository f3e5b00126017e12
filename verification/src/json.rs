//! A JSON document as plain values.
//!
//! `serde_json` reads the text; what a document means is decided here and in
//! the modules that ask for one, on values of this crate.

use crate::entries::{entry_of, find_entry};
use crate::text::{lemma_views_push, views};
use vstd::prelude::*;

verus! {

/// A JSON value.
#[derive(Debug)]
pub enum Json {
    Null,
    Bool(bool),
    /// A whole number from zero up.
    Unsigned(u64),
    /// A number below zero, or with a fraction or an exponent.
    OtherNumber,
    Text(String),
    Items(Vec<Json>),
    /// The fields of an object, each name once.
    Fields(Vec<(String, Json)>),
}

/// What a JSON value says.
#[verifier::ext_equal]
pub enum JsonView {
    Null,
    Bool(bool),
    Unsigned(u64),
    OtherNumber,
    Text(Seq<char>),
    Items(Seq<JsonView>),
    Fields(Seq<(Seq<char>, JsonView)>),
}

/// What a value says, member by member.
pub open spec fn said_by(json: Json) -> JsonView
    decreases json,
{
    match json {
        Json::Null => JsonView::Null,
        Json::Bool(value) => JsonView::Bool(value),
        Json::Unsigned(value) => JsonView::Unsigned(value),
        Json::OtherNumber => JsonView::OtherNumber,
        Json::Text(text) => JsonView::Text(text@),
        Json::Items(items) => JsonView::Items(
            Seq::new(
                items@.len(),
                |i: int|
                    if 0 <= i < items@.len() {
                        said_by(items@[i])
                    } else {
                        JsonView::Null
                    },
            ),
        ),
        Json::Fields(fields) => JsonView::Fields(
            Seq::new(
                fields@.len(),
                |i: int|
                    if 0 <= i < fields@.len() {
                        (fields@[i].0@, said_by(fields@[i].1))
                    } else {
                        (Seq::empty(), JsonView::Null)
                    },
            ),
        ),
    }
}

impl View for Json {
    type V = JsonView;

    open spec fn view(&self) -> JsonView {
        said_by(*self)
    }
}

/// `serde_json::Value`, the tree that `serde_json` reads a text into.
#[verifier::external_type_specification]
#[verifier::external_body]
pub struct ExValue(serde_json::Value);

/// The document that a text writes, or why it writes none: what
/// `serde_json::from_str` makes of the text.
pub uninterp spec fn json_document(text: Seq<char>) -> Result<JsonView, Seq<char>>;

/// A `serde_json::Value` in this crate's own terms, variant by variant. An
/// object's fields come in the order the map gives them.
#[verifier::external_body]
fn plain(value: serde_json::Value) -> (json: Json) {
    match value {
        serde_json::Value::Null => Json::Null,
        serde_json::Value::Bool(value) => Json::Bool(value),
        serde_json::Value::Number(number) => number.as_u64().map_or(
            Json::OtherNumber,
            Json::Unsigned,
        ),
        serde_json::Value::String(text) => Json::Text(text),
        serde_json::Value::Array(items) => Json::Items(items.into_iter().map(plain).collect()),
        serde_json::Value::Object(fields) => Json::Fields(
            fields.into_iter().map(|(name, value)| (name, plain(value))).collect(),
        ),
    }
}

/// `serde_json::from_str` into a `serde_json::Value`: the document or the
/// error's own words, both decided by the text alone. A field written twice
/// keeps its last value.
#[verifier::external_body]
pub(crate) fn parse(text: &str) -> (document: Result<Json, String>)
    ensures
        match document {
            Ok(json) => json_document(text@) == Ok::<JsonView, Seq<char>>(json@),
            Err(reason) => json_document(text@) == Err::<JsonView, Seq<char>>(reason@),
        },
{
    serde_json::from_str::<serde_json::Value>(text).map(plain).map_err(|error| error.to_string())
}

/// The items of a list, as a list of what they stand for.
pub proof fn lemma_items_view(items: Vec<Json>)
    ensures
        (Json::Items(items))@ == JsonView::Items(views(items@)),
{
    assert(said_by(Json::Items(items))->Items_0 =~= views(items@));
}

/// The fields of an object, as a list of what they stand for.
pub proof fn lemma_fields_view(fields: Vec<(String, Json)>)
    ensures
        (Json::Fields(fields))@ == JsonView::Fields(views(fields@)),
{
    assert(said_by(Json::Fields(fields))->Fields_0 =~= views(fields@));
}

/// One member of a record of `count` members: by name in an object, by place in
/// a list. `None` where the value is no such record, and where a list is too
/// long for it; `Some(None)` where the record does not have the member.
pub open spec fn member_of(json: JsonView, index: int, count: int, name: Seq<char>) -> Option<
    Option<JsonView>,
> {
    match json {
        JsonView::Fields(fields) => Some(entry_of(fields, name)),
        JsonView::Items(items) => if items.len() > count {
            None
        } else if index < items.len() {
            Some(Some(items[index]))
        } else {
            Some(None)
        },
        _ => None,
    }
}

/// Finds one member of a record.
pub fn member<'a>(json: &'a Json, index: usize, count: usize, name: &str) -> (found: Option<
    Option<&'a Json>,
>)
    ensures
        match found {
            Some(Some(value)) => member_of(json@, index as int, count as int, name@) == Some(
                Some(value@),
            ),
            Some(None) => member_of(json@, index as int, count as int, name@) == Some(
                None::<JsonView>,
            ),
            None => member_of(json@, index as int, count as int, name@) is None,
        },
{
    match json {
        Json::Fields(fields) => {
            proof {
                lemma_fields_view(*fields);
            }
            Some(find_entry(fields.as_slice(), name))
        },
        Json::Items(items) => {
            proof {
                lemma_items_view(*items);
            }
            if items.len() > count {
                None
            } else if index < items.len() {
                Some(Some(&items[index]))
            } else {
                Some(None)
            }
        },
        _ => None,
    }
}

/// A text.
pub open spec fn text_of(json: JsonView) -> Option<Seq<char>> {
    match json {
        JsonView::Text(text) => Some(text),
        _ => None,
    }
}

/// A list of nothing but texts.
pub open spec fn texts_of(json: JsonView) -> Option<Seq<Seq<char>>> {
    match json {
        JsonView::Items(items) => if forall|i: int|
            0 <= i < items.len() ==> #[trigger] items[i] is Text {
            Some(items.map_values(|item: JsonView| item->Text_0))
        } else {
            None
        },
        _ => None,
    }
}

/// An object of nothing but texts.
pub open spec fn text_fields_of(json: JsonView) -> Option<Seq<(Seq<char>, Seq<char>)>> {
    match json {
        JsonView::Fields(fields) => if forall|i: int|
            0 <= i < fields.len() ==> (#[trigger] fields[i]).1 is Text {
            Some(fields.map_values(|field: (Seq<char>, JsonView)| (field.0, field.1->Text_0)))
        } else {
            None
        },
        _ => None,
    }
}

/// Reads a list of texts.
pub fn read_texts(json: &Json) -> (list: Option<Vec<String>>)
    ensures
        match list {
            Some(list) => texts_of(json@) == Some(views(list@)),
            None => texts_of(json@) is None,
        },
{
    broadcast use lemma_views_push;

    match json {
        Json::Items(items) => {
            proof {
                lemma_items_view(*items);
            }
            let ghost all = views(items@);
            let mut list: Vec<String> = Vec::new();
            let mut i: usize = 0;
            while i < items.len()
                invariant
                    i <= items@.len(),
                    all == views(items@),
                    json@ == JsonView::Items(all),
                    forall|j: int| 0 <= j < i ==> #[trigger] all[j] is Text,
                    views(list@) == all.take(i as int).map_values(|item: JsonView| item->Text_0),
                decreases items@.len() - i,
            {
                assert(all[i as int] == items@[i as int]@);
                match &items[i] {
                    Json::Text(text) => {
                        list.push(text.clone());
                    },
                    _ => {
                        assert(!(all[i as int] is Text));
                        return None;
                    },
                }
                assert(all.take(i + 1).map_values(|item: JsonView| item->Text_0) =~= all.take(
                    i as int,
                ).map_values(|item: JsonView| item->Text_0).push(all[i as int]->Text_0));
                i = i + 1;
            }
            assert(all.take(i as int) =~= all);
            Some(list)
        },
        _ => None,
    }
}

/// Reads an object of texts.
pub fn read_text_fields(json: &Json) -> (fields: Option<Vec<(String, String)>>)
    ensures
        match fields {
            Some(fields) => text_fields_of(json@) == Some(views(fields@)),
            None => text_fields_of(json@) is None,
        },
{
    match json {
        Json::Fields(fields) => {
            proof {
                lemma_fields_view(*fields);
            }
            let ghost all = views(fields@);
            let ghost plain = |field: (Seq<char>, JsonView)| (field.0, field.1->Text_0);
            let mut list: Vec<(String, String)> = Vec::new();
            let mut i: usize = 0;
            while i < fields.len()
                invariant
                    i <= fields@.len(),
                    all == views(fields@),
                    plain == (|field: (Seq<char>, JsonView)| (field.0, field.1->Text_0)),
                    json@ == JsonView::Fields(all),
                    forall|j: int| 0 <= j < i ==> (#[trigger] all[j]).1 is Text,
                    views(list@) =~= all.take(i as int).map_values(plain),
                decreases fields@.len() - i,
            {
                assert(all[i as int] == fields@[i as int]@);
                let ghost before = list@;
                match &fields[i].1 {
                    Json::Text(text) => {
                        list.push((fields[i].0.clone(), text.clone()));
                        assert(views(list@) =~= views(before).push(
                            (all[i as int].0, all[i as int].1->Text_0),
                        ));
                    },
                    _ => {
                        assert(!(all[i as int].1 is Text));
                        return None;
                    },
                }
                assert(all.take(i + 1).map_values(plain) =~= all.take(i as int).map_values(
                    plain,
                ).push(plain(all[i as int])));
                i = i + 1;
            }
            assert(all.take(i as int) =~= all);
            Some(list)
        },
        _ => None,
    }
}

/// A member that is an object of texts, empty where the record does not have
/// it. `None` where it is there and something else.
pub open spec fn text_fields_member(
    json: JsonView,
    index: int,
    count: int,
    name: Seq<char>,
) -> Option<Seq<(Seq<char>, Seq<char>)>> {
    match member_of(json, index, count, name) {
        Some(Some(value)) => text_fields_of(value),
        Some(None) => Some(seq![]),
        None => None,
    }
}

/// Reads a member that is an object of texts.
pub fn read_text_fields_member(json: &Json, index: usize, count: usize, name: &str) -> (fields:
    Option<Vec<(String, String)>>)
    ensures
        match fields {
            Some(fields) => text_fields_member(json@, index as int, count as int, name@) == Some(
                views(fields@),
            ),
            None => text_fields_member(json@, index as int, count as int, name@) is None,
        },
{
    match member(json, index, count, name) {
        Some(Some(value)) => read_text_fields(value),
        Some(None) => {
            let none: Vec<(String, String)> = Vec::new();
            assert(views(none@) =~= seq![]);
            Some(none)
        },
        None => None,
    }
}

/// A member is found by its name in an object and by its place in a list, which
/// may not be longer than the members there are; nothing else has members.
pub proof fn law_a_member_is_found_by_name_or_place(
    fields: Seq<(Seq<char>, JsonView)>,
    items: Seq<JsonView>,
    index: int,
    count: int,
    name: Seq<char>,
    text: Seq<char>,
)
    ensures
        member_of(JsonView::Fields(fields), index, count, name) == Some(entry_of(fields, name)),
        0 <= index < items.len() <= count ==> member_of(JsonView::Items(items), index, count, name)
            == Some(Some(items[index])),
        items.len() <= index < count ==> member_of(JsonView::Items(items), index, count, name)
            == Some(None::<JsonView>),
        items.len() > count ==> member_of(JsonView::Items(items), index, count, name) is None,
        member_of(JsonView::Text(text), index, count, name) is None,
        member_of(JsonView::Null, index, count, name) is None,
{
}

/// A list of texts gives its texts in their places, and a list that holds anything
/// else gives none; the same of the fields of an object.
pub proof fn law_texts_are_given_in_their_places(
    items: Seq<JsonView>,
    texts: Seq<Seq<char>>,
    fields: Seq<(Seq<char>, JsonView)>,
    pairs: Seq<(Seq<char>, Seq<char>)>,
    i: int,
)
    ensures
        items.len() == texts.len() && (forall|j: int|
            0 <= j < items.len() ==> #[trigger] items[j] == JsonView::Text(texts[j])) ==> texts_of(
            JsonView::Items(items),
        ) == Some(texts),
        0 <= i < items.len() && !(items[i] is Text) ==> texts_of(JsonView::Items(items)) is None,
        fields.len() == pairs.len() && (forall|j: int|
            0 <= j < fields.len() ==> #[trigger] fields[j] == (
                pairs[j].0,
                JsonView::Text(pairs[j].1),
            )) ==> text_fields_of(JsonView::Fields(fields)) == Some(pairs),
        0 <= i < fields.len() && !(fields[i].1 is Text) ==> text_fields_of(JsonView::Fields(fields))
            is None,
{
    if items.len() == texts.len() && (forall|j: int|
        0 <= j < items.len() ==> #[trigger] items[j] == JsonView::Text(texts[j])) {
        assert(items.map_values(|item: JsonView| item->Text_0) =~= texts);
    }
    if fields.len() == pairs.len() && (forall|j: int|
        0 <= j < fields.len() ==> #[trigger] fields[j] == (
            pairs[j].0,
            JsonView::Text(pairs[j].1),
        )) {
        let made = fields.map_values(|field: (Seq<char>, JsonView)| (field.0, field.1->Text_0));
        assert forall|j: int| 0 <= j < fields.len() implies #[trigger] made[j] == pairs[j] by {
            assert(fields[j] == (pairs[j].0, JsonView::Text(pairs[j].1)));
        }
        assert(made =~= pairs);
    }
}

} // verus!
