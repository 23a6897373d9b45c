//! JSON values, as far as a schema needs them.

use vstd::prelude::*;

verus! {

/// A JSON value. The members of an object keep the order they were given in.
#[derive(Debug, PartialEq, Eq)]
pub enum JsonValue {
    Null,
    Bool(bool),
    Number(u64),
    String(String),
    Array(Vec<JsonValue>),
    Object(Vec<(String, JsonValue)>),
}

/// The view of a [`JsonValue`].
pub enum JsonView {
    Null,
    Bool(bool),
    Number(nat),
    String(Seq<char>),
    Array(Seq<JsonView>),
    Object(Seq<(Seq<char>, JsonView)>),
}

/// The view of a JSON value, by recursion on its structure.
pub open spec fn json_view(value: &JsonValue) -> JsonView
    decreases value,
{
    match value {
        JsonValue::Null => JsonView::Null,
        JsonValue::Bool(truth) => JsonView::Bool(*truth),
        JsonValue::Number(number) => JsonView::Number(*number as nat),
        JsonValue::String(text) => JsonView::String(text@),
        JsonValue::Array(items) => JsonView::Array(
            Seq::new(
                items@.len(),
                |i: int|
                    if 0 <= i < items@.len() {
                        json_view(&items@[i])
                    } else {
                        JsonView::Null
                    },
            ),
        ),
        JsonValue::Object(members) => JsonView::Object(
            Seq::new(
                members@.len(),
                |i: int|
                    if 0 <= i < members@.len() {
                        (members@[i].0@, json_view(&members@[i].1))
                    } else {
                        (Seq::empty(), JsonView::Null)
                    },
            ),
        ),
    }
}

impl View for JsonValue {
    type V = JsonView;

    open spec fn view(&self) -> JsonView {
        json_view(self)
    }
}

/// The views of the items of an array.
pub open spec fn items_view(items: Seq<JsonValue>) -> Seq<JsonView> {
    items.map_values(|item: JsonValue| item@)
}

/// The views of the members of an object.
pub open spec fn members_view(members: Seq<(String, JsonValue)>) -> Seq<(Seq<char>, JsonView)> {
    members.map_values(|member: (String, JsonValue)| (member.0@, member.1@))
}

/// The view of an array or an object is made of the views of its parts.
pub proof fn lemma_json_view(value: &JsonValue)
    ensures
        value matches JsonValue::Array(items) ==> value@ == JsonView::Array(items_view(items@)),
        value matches JsonValue::Object(members) ==> value@ == JsonView::Object(
            members_view(members@),
        ),
{
    match value {
        JsonValue::Array(items) => {
            assert(value@->Array_0 =~= items_view(items@));
        },
        JsonValue::Object(members) => {
            assert(value@->Object_0 =~= members_view(members@));
        },
        _ => {},
    }
}

impl JsonValue {
    /// The string that holds `text`.
    pub fn text(text: &str) -> (json: JsonValue)
        ensures
            json@ == JsonView::String(text@),
    {
        JsonValue::String(text.to_owned())
    }

    /// The array of `items`.
    pub fn array(items: Vec<JsonValue>) -> (json: JsonValue)
        ensures
            json@ == JsonView::Array(items_view(items@)),
    {
        let json = JsonValue::Array(items);
        proof {
            lemma_json_view(&json);
        }
        json
    }

    /// The object of `members`, in their order.
    pub fn object(members: Vec<(String, JsonValue)>) -> (json: JsonValue)
        ensures
            json@ == JsonView::Object(members_view(members@)),
    {
        let json = JsonValue::Object(members);
        proof {
            lemma_json_view(&json);
        }
        json
    }

    /// A copy of the value.
    pub fn duplicate(&self) -> (copy: JsonValue)
        ensures
            copy@ == self@,
        decreases self,
    {
        match self {
            JsonValue::Null => JsonValue::Null,
            JsonValue::Bool(truth) => JsonValue::Bool(*truth),
            JsonValue::Number(number) => JsonValue::Number(*number),
            JsonValue::String(text) => JsonValue::String(text.clone()),
            JsonValue::Array(items) => {
                let mut copies: Vec<JsonValue> = Vec::new();
                let mut i: usize = 0;
                while i < items.len()
                    invariant
                        *self == JsonValue::Array(*items),
                        i <= items.len(),
                        copies.len() == i,
                        forall|j: int| 0 <= j < i ==> (#[trigger] copies[j])@ == items[j]@,
                    decreases items.len() - i,
                {
                    assert(decreases_to!(self => self->Array_0@[i as int]));
                    copies.push(items[i].duplicate());
                    i += 1;
                }
                let copy = JsonValue::Array(copies);
                assert(copy@->Array_0 =~= self@->Array_0);
                copy
            },
            JsonValue::Object(members) => {
                let mut copies: Vec<(String, JsonValue)> = Vec::new();
                let mut i: usize = 0;
                while i < members.len()
                    invariant
                        *self == JsonValue::Object(*members),
                        i <= members.len(),
                        copies.len() == i,
                        forall|j: int|
                            0 <= j < i ==> (#[trigger] copies[j]).0@ == members[j].0@
                                && copies[j].1@ == members[j].1@,
                    decreases members.len() - i,
                {
                    assert(decreases_to!(self => self->Object_0@[i as int].1));
                    copies.push((members[i].0.clone(), members[i].1.duplicate()));
                    i += 1;
                }
                let copy = JsonValue::Object(copies);
                assert(copy@->Object_0 =~= self@->Object_0);
                copy
            },
        }
    }
}

/// Adds the member `key` with `value` after the members that are there.
pub fn put(members: &mut Vec<(String, JsonValue)>, key: &str, value: JsonValue)
    ensures
        members_view(final(members)@) == members_view(old(members)@).push((key@, value@)),
{
    members.push((key.to_owned(), value));
}

} // verus!
