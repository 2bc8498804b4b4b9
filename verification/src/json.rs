//! JSON documents as plain values, and the mathematical model that the
//! contracts of this crate speak of.

use crate::text::{str_equal, text_view};
use vstd::prelude::*;

verus! {

/// The model of a JSON value.
pub enum JsonValue {
    Null,
    Bool(bool),
    /// A number, by its text.
    Number(Seq<char>),
    Str(Seq<char>),
    Array(Seq<JsonValue>),
    /// An object, by its members in order.
    Object(Seq<(Seq<char>, JsonValue)>),
}

/// A JSON value. A number is held by its text, so that any number a document
/// holds passes through unchanged.
#[derive(Debug, PartialEq, Eq)]
pub enum Json {
    Null,
    Bool(bool),
    Number(String),
    Str(String),
    Array(Vec<Json>),
    Object(Vec<Member>),
}

/// One member of a JSON object.
#[derive(Debug, PartialEq, Eq)]
pub struct Member {
    pub name: String,
    pub value: Json,
}

impl View for Json {
    type V = JsonValue;

    open spec fn view(&self) -> JsonValue
        decreases self, 0nat,
    {
        match self {
            Json::Null => JsonValue::Null,
            Json::Bool(b) => JsonValue::Bool(*b),
            Json::Number(text) => JsonValue::Number(text@),
            Json::Str(text) => JsonValue::Str(text@),
            Json::Array(items) => JsonValue::Array(items_prefix(items@, items@.len())),
            Json::Object(members) => JsonValue::Object(members_prefix(members@, members@.len())),
        }
    }
}

/// The models of the first `n` of `items`.
pub open spec fn items_prefix(items: Seq<Json>, n: nat) -> Seq<JsonValue>
    decreases items, n,
{
    if 0 < n <= items.len() {
        items_prefix(items, (n - 1) as nat).push(items[n - 1]@)
    } else {
        Seq::empty()
    }
}

/// The models of the first `n` of `members`.
pub open spec fn members_prefix(members: Seq<Member>, n: nat) -> Seq<(Seq<char>, JsonValue)>
    decreases members, n,
{
    if 0 < n <= members.len() {
        members_prefix(members, (n - 1) as nat).push((members[n - 1].name@, members[n - 1].value@))
    } else {
        Seq::empty()
    }
}

impl View for Member {
    type V = (Seq<char>, JsonValue);

    open spec fn view(&self) -> (Seq<char>, JsonValue) {
        (self.name@, self.value@)
    }
}

/// The models of a list of members.
pub open spec fn members_view(members: Seq<Member>) -> Seq<(Seq<char>, JsonValue)> {
    Seq::new(members.len(), |i: int| members[i]@)
}

/// The models of a list of values.
pub open spec fn items_view(items: Seq<Json>) -> Seq<JsonValue> {
    Seq::new(items.len(), |i: int| items[i]@)
}

pub proof fn lemma_items_prefix(items: Seq<Json>, n: nat)
    requires
        n <= items.len(),
    ensures
        items_prefix(items, n) == items_view(items.take(n as int)),
    decreases n,
{
    if n > 0 {
        lemma_items_prefix(items, (n - 1) as nat);
        assert(items_view(items.take(n - 1)).push(items[n - 1]@) =~= items_view(
            items.take(n as int),
        ));
    } else {
        assert(items_view(items.take(0)) =~= Seq::empty());
    }
}

pub proof fn lemma_members_prefix(members: Seq<Member>, n: nat)
    requires
        n <= members.len(),
    ensures
        members_prefix(members, n) == members_view(members.take(n as int)),
    decreases n,
{
    if n > 0 {
        lemma_members_prefix(members, (n - 1) as nat);
        assert(members_view(members.take(n - 1)).push(members[n - 1]@) =~= members_view(
            members.take(n as int),
        ));
    } else {
        assert(members_view(members.take(0)) =~= Seq::empty());
    }
}

/// What the model of an array or of an object is made of.
pub broadcast proof fn lemma_json_view(value: Json)
    ensures
        #![trigger value@]
        value matches Json::Array(items) ==> value@ == JsonValue::Array(items_view(items@)),
        value matches Json::Object(members) ==> value@ == JsonValue::Object(
            members_view(members@),
        ),
{
    match value {
        Json::Array(items) => {
            lemma_items_prefix(items@, items@.len());
            assert(items@.take(items@.len() as int) =~= items@);
        },
        Json::Object(members) => {
            lemma_members_prefix(members@, members@.len());
            assert(members@.take(members@.len() as int) =~= members@);
        },
        _ => {},
    }
}

/// The value of the first member of that name.
pub open spec fn first_named(members: Seq<(Seq<char>, JsonValue)>, name: Seq<char>) -> Option<
    JsonValue,
>
    decreases members.len(),
{
    if members.len() == 0 {
        None
    } else if members[0].0 == name {
        Some(members[0].1)
    } else {
        first_named(members.drop_first(), name)
    }
}

/// The text of the first member of that name of an object, where it is a
/// string.
pub open spec fn string_member(value: JsonValue, name: Seq<char>) -> Option<Seq<char>> {
    match value {
        JsonValue::Object(members) => match first_named(members, name) {
            Some(JsonValue::Str(text)) => Some(text),
            _ => None,
        },
        _ => None,
    }
}

impl Json {
    /// The value of the first member named `name` of an object.
    pub fn member(&self, name: &str) -> (found: Option<&Json>)
        ensures
            match found {
                Some(value) => self@ matches JsonValue::Object(members) && first_named(
                    members,
                    name@,
                ) == Some(value@),
                None => self@ matches JsonValue::Object(members) ==> first_named(members, name@)
                    is None,
            },
    {
        proof {
            lemma_json_view(*self);
        }
        match self {
            Json::Object(members) => {
                let ghost all = members_view(members@);
                let mut i: usize = 0;
                assert(all.skip(0) =~= all);
                while i < members.len()
                    invariant
                        i <= members.len(),
                        all == members_view(members@),
                        self@ == JsonValue::Object(all),
                        first_named(all, name@) == first_named(all.skip(i as int), name@),
                    decreases members.len() - i,
                {
                    proof {
                        assert(all.skip(i as int)[0] == members@[i as int]@);
                        assert(all.skip(i as int).drop_first() =~= all.skip(i + 1));
                    }
                    if str_equal(members[i].name.as_str(), name) {
                        return Some(&members[i].value);
                    }
                    i += 1;
                }
                None
            },
            _ => None,
        }
    }

    /// A copy of the text of the first member named `name` of an object,
    /// where it is a string.
    pub fn string_member(&self, name: &str) -> (found: Option<String>)
        ensures
            text_view(found) == string_member(self@, name@),
    {
        match self.member(name) {
            Some(value) => match value.as_str() {
                Some(text) => Some(text.to_owned()),
                None => None,
            },
            None => None,
        }
    }

    /// A copy of the value.
    pub fn duplicate(&self) -> (copy: Json)
        ensures
            copy@ == self@,
        decreases self,
    {
        proof {
            lemma_json_view(*self);
        }
        match self {
            Json::Null => Json::Null,
            Json::Bool(b) => Json::Bool(*b),
            Json::Number(text) => Json::Number(text.clone()),
            Json::Str(text) => Json::Str(text.clone()),
            Json::Array(items) => {
                let mut copies: Vec<Json> = Vec::new();
                let mut i: usize = 0;
                while i < items.len()
                    invariant
                        i <= items.len(),
                        *self == Json::Array(*items),
                        copies@.len() == i,
                        forall|k: int| 0 <= k < i ==> (#[trigger] copies@[k])@ == items@[k]@,
                    decreases items.len() - i,
                {
                    assert(self->Array_0 == *items);
                    assert(decreases_to!(*items => items[i as int]));
                    copies.push(items[i].duplicate());
                    i += 1;
                }
                assert(items_view(copies@) =~= items_view(items@));
                Json::array(copies)
            },
            Json::Object(members) => {
                let mut copies: Vec<Member> = Vec::new();
                let mut i: usize = 0;
                while i < members.len()
                    invariant
                        i <= members.len(),
                        *self == Json::Object(*members),
                        copies@.len() == i,
                        forall|k: int| 0 <= k < i ==> (#[trigger] copies@[k])@ == members@[k]@,
                    decreases members.len() - i,
                {
                    assert(self->Object_0 == *members);
                    assert(decreases_to!(*members => members[i as int]));
                    copies.push(
                        Member {
                            name: members[i].name.clone(),
                            value: members[i].value.duplicate(),
                        },
                    );
                    i += 1;
                }
                assert(members_view(copies@) =~= members_view(members@));
                Json::object(copies)
            },
        }
    }

    /// The JSON string with the characters of `text`.
    pub fn string(text: &str) -> (value: Json)
        ensures
            value@ == JsonValue::Str(text@),
    {
        Json::Str(text.to_owned())
    }

    /// The JSON array of `items`.
    pub fn array(items: Vec<Json>) -> (value: Json)
        ensures
            value@ == JsonValue::Array(items_view(items@)),
    {
        let value = Json::Array(items);
        proof {
            lemma_json_view(value);
        }
        value
    }

    /// The JSON object of `members`.
    pub fn object(members: Vec<Member>) -> (value: Json)
        ensures
            value@ == JsonValue::Object(members_view(members@)),
    {
        let value = Json::Object(members);
        proof {
            lemma_json_view(value);
        }
        value
    }

    /// The text of a JSON string, `None` for any other value.
    pub fn as_str(&self) -> (text: Option<&str>)
        ensures
            match text {
                Some(t) => self@ == JsonValue::Str(t@),
                None => !(self@ is Str),
            },
    {
        match self {
            Json::Str(text) => Some(text.as_str()),
            _ => None,
        }
    }
}

} // verus!
