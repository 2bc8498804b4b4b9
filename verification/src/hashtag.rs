//! The hashtag: a link-like object of the vocabulary with an optional target
//! and an optional name over the properties of its base object.

use crate::bag::{PropertyBag, SerializationError};
use crate::iri::{is_iri, Iri};
use crate::json::{string_member, Json, JsonValue, Member};
use vstd::prelude::*;

verus! {

/// The kind of a hashtag.
#[derive(Clone, Copy, Debug, PartialEq, Eq, Structural)]
pub enum HashtagType07 {
    Hashtag,
}

impl HashtagType07 {
    /// The name of the kind as it stands in a document.
    pub fn as_str(&self) -> (name: &'static str)
        ensures
            name@ == "Hashtag"@,
    {
        "Hashtag"
    }
}

impl Default for HashtagType07 {
    fn default() -> (kind: HashtagType07)
        ensures
            kind == HashtagType07::Hashtag,
    {
        HashtagType07::Hashtag
    }
}

/// A string of the vocabulary: plain, or with the language it is in.
#[derive(Debug, PartialEq, Eq)]
pub enum AnyString {
    Plain(String),
    Lang { value: String, language: String },
}

/// The model of an `AnyString`.
pub enum AnyStringModel {
    Plain(Seq<char>),
    Lang { value: Seq<char>, language: Seq<char> },
}

impl View for AnyString {
    type V = AnyStringModel;

    open spec fn view(&self) -> AnyStringModel {
        match self {
            AnyString::Plain(text) => AnyStringModel::Plain(text@),
            AnyString::Lang { value, language } => AnyStringModel::Lang {
                value: value@,
                language: language@,
            },
        }
    }
}

/// The string that a JSON value describes: a JSON string, or an object with
/// the strings `@value` and `@language`.
pub open spec fn any_string_of(value: JsonValue) -> Option<AnyStringModel> {
    match value {
        JsonValue::Str(text) => Some(AnyStringModel::Plain(text)),
        _ => match (string_member(value, "@value"@), string_member(value, "@language"@)) {
            (Some(v), Some(language)) => Some(AnyStringModel::Lang { value: v, language }),
            _ => None,
        },
    }
}

/// The JSON value that describes a string of the vocabulary.
pub open spec fn any_string_value(text: AnyStringModel) -> JsonValue {
    match text {
        AnyStringModel::Plain(t) => JsonValue::Str(t),
        AnyStringModel::Lang { value, language } => JsonValue::Object(
            seq![("@value"@, JsonValue::Str(value)), ("@language"@, JsonValue::Str(language))],
        ),
    }
}

/// The view of a string of the vocabulary that may be absent.
pub open spec fn any_string_view(text: Option<AnyString>) -> Option<AnyStringModel> {
    match text {
        Some(t) => Some(t@),
        None => None,
    }
}

/// The view of an IRI that may be absent.
pub open spec fn iri_view(iri: Option<Iri>) -> Option<Seq<char>> {
    match iri {
        Some(i) => Some(i@),
        None => None,
    }
}

impl AnyString {
    /// The text, whatever language it is in.
    pub fn as_str(&self) -> (text: &str)
        ensures
            text@ == match self@ {
                AnyStringModel::Plain(t) => t,
                AnyStringModel::Lang { value, language } => value,
            },
    {
        match self {
            AnyString::Plain(text) => text.as_str(),
            AnyString::Lang { value, language } => value.as_str(),
        }
    }

    /// The string that `value` describes.
    pub fn from_json(value: &Json) -> (text: Option<AnyString>)
        ensures
            any_string_view(text) == any_string_of(value@),
    {
        match value.as_str() {
            Some(text) => Some(AnyString::Plain(text.to_owned())),
            None => {
                let v = match value.string_member("@value") {
                    Some(v) => v,
                    None => {
                        return None;
                    },
                };
                let language = match value.string_member("@language") {
                    Some(language) => language,
                    None => {
                        return None;
                    },
                };
                Some(AnyString::Lang { value: v, language })
            },
        }
    }

    /// The JSON value that describes the string.
    pub fn into_json(self) -> (value: Json)
        ensures
            value@ == any_string_value(self@),
    {
        match self {
            AnyString::Plain(text) => Json::Str(text),
            AnyString::Lang { value, language } => {
                let mut members: Vec<Member> = Vec::new();
                members.push(Member { name: "@value".to_owned(), value: Json::Str(value) });
                members.push(Member { name: "@language".to_owned(), value: Json::Str(language) });
                let out = Json::object(members);
                assert(out@->Object_0 =~= any_string_value(self@)->Object_0);
                out
            },
        }
    }
}

/// The IRI under `name`, if the bag holds one there. Nothing there, or
/// `null`, is no IRI and no fault; anything else but an IRI is a fault.
pub open spec fn optional_iri_in(fields: Map<Seq<char>, JsonValue>, name: Seq<char>) -> Result<
    Option<Seq<char>>,
    SerializationError,
> {
    if !fields.dom().contains(name) {
        Ok(None)
    } else {
        match fields[name] {
            JsonValue::Null => Ok(None),
            JsonValue::Str(text) => if is_iri(text) {
                Ok(Some(text))
            } else {
                Err(SerializationError::WrongShape)
            },
            _ => Err(SerializationError::WrongShape),
        }
    }
}

/// The string of the vocabulary under `name`, if the bag holds one there.
/// Nothing there, or `null`, is no string and no fault; anything else but a
/// string of the vocabulary is a fault.
pub open spec fn optional_any_string_in(
    fields: Map<Seq<char>, JsonValue>,
    name: Seq<char>,
) -> Result<Option<AnyStringModel>, SerializationError> {
    if !fields.dom().contains(name) {
        Ok(None)
    } else {
        match fields[name] {
            JsonValue::Null => Ok(None),
            other => match any_string_of(other) {
                Some(text) => Ok(Some(text)),
                None => Err(SerializationError::WrongShape),
            },
        }
    }
}

/// The model of a `Hashtag07`.
pub struct HashtagModel {
    pub href: Option<Seq<char>>,
    pub name: Option<AnyStringModel>,
    pub inner: Map<Seq<char>, JsonValue>,
}

/// The hashtag that a base object extends to: `href` and `name` are taken
/// out of its properties, the rest stays.
pub open spec fn extended(inner: Map<Seq<char>, JsonValue>) -> Result<
    HashtagModel,
    SerializationError,
> {
    match optional_iri_in(inner, "href"@) {
        Err(e) => Err(e),
        Ok(href) => match optional_any_string_in(inner, "name"@) {
            Err(e) => Err(e),
            Ok(name) => Ok(
                HashtagModel { href, name, inner: inner.remove("href"@).remove("name"@) },
            ),
        },
    }
}

/// A bag with one more property, where there is a value for it.
pub open spec fn with_optional(
    bag: Map<Seq<char>, JsonValue>,
    name: Seq<char>,
    value: Option<JsonValue>,
) -> Map<Seq<char>, JsonValue> {
    match value {
        Some(v) => bag.insert(name, v),
        None => bag,
    }
}

/// The value that is written for the target of a hashtag.
pub open spec fn href_value(href: Option<Seq<char>>) -> Option<JsonValue> {
    match href {
        Some(text) => Some(JsonValue::Str(text)),
        None => None,
    }
}

/// The value that is written for the name of a hashtag.
pub open spec fn name_value(name: Option<AnyStringModel>) -> Option<JsonValue> {
    match name {
        Some(text) => Some(any_string_value(text)),
        None => None,
    }
}

/// The base object that a hashtag retracts to: its properties with `href`
/// and `name` put back, where the hashtag has them. A property of that name
/// that is there already is a conflict.
pub open spec fn retracted(tag: HashtagModel) -> Result<
    Map<Seq<char>, JsonValue>,
    SerializationError,
> {
    if (tag.href is Some && tag.inner.dom().contains("href"@)) || (tag.name is Some
        && tag.inner.dom().contains("name"@)) {
        Err(SerializationError::Conflict)
    } else {
        Ok(
            with_optional(
                with_optional(tag.inner, "href"@, href_value(tag.href)),
                "name"@,
                name_value(tag.name),
            ),
        )
    }
}

/// A hashtag that a base object extends to retracts to that base object
/// again, whether or not the target and the name are there. This holds where
/// what is there is what a hashtag writes: the target not `null`, the name
/// not `null` and described by nothing but its own members.
pub proof fn lemma_hashtag_round_trip(inner: Map<Seq<char>, JsonValue>)
    requires
        extended(inner) is Ok,
        inner.dom().contains("href"@) ==> inner["href"@] !is Null,
        inner.dom().contains("name"@) ==> (any_string_of(inner["name"@]) matches Some(name)
            && inner["name"@] == any_string_value(name)),
    ensures
        extended(inner) matches Ok(tag) && retracted(tag) == Ok::<
            Map<Seq<char>, JsonValue>,
            SerializationError,
        >(inner),
{
    reveal_strlit("href");
    reveal_strlit("name");
    assert("href"@[0] != "name"@[0]);
    let tag = extended(inner)->Ok_0;
    assert(with_optional(
        with_optional(tag.inner, "href"@, href_value(tag.href)),
        "name"@,
        name_value(tag.name),
    ) =~= inner);
}

/// A hashtag.
#[derive(Debug, PartialEq, Eq)]
pub struct Hashtag07 {
    /// What the hashtag points to.
    pub href: Option<Iri>,
    /// The text of the hashtag.
    pub name: Option<AnyString>,
    /// The base object: the properties that are neither target nor name.
    pub inner: PropertyBag,
}

impl View for Hashtag07 {
    type V = HashtagModel;

    open spec fn view(&self) -> HashtagModel {
        HashtagModel {
            href: iri_view(self.href),
            name: any_string_view(self.name),
            inner: self.inner@,
        }
    }
}

impl Hashtag07 {
    /// The hashtag without target and name, over a base object that holds
    /// nothing but its kind.
    pub fn new() -> (tag: Hashtag07)
        ensures
            tag@.href is None,
            tag@.name is None,
            tag@.inner == Map::<Seq<char>, JsonValue>::empty().insert(
                "type"@,
                JsonValue::Str("Hashtag"@),
            ),
    {
        let mut inner = PropertyBag::new();
        inner.set("type".to_owned(), Json::string(HashtagType07::Hashtag.as_str()));
        Hashtag07 { href: None, name: None, inner }
    }

    /// Extends a base object to a hashtag.
    pub fn extending(inner: PropertyBag) -> (out: Result<Hashtag07, SerializationError>)
        ensures
            match out {
                Ok(tag) => extended(inner@) == Ok::<HashtagModel, SerializationError>(tag@),
                Err(e) => extended(inner@) == Err::<HashtagModel, SerializationError>(e),
            },
    {
        let mut inner = inner;
        let ghost before = inner@;
        let href = match inner.get("href") {
            None => None,
            Some(value) => match value {
                Json::Null => None,
                Json::Str(text) => match Iri::parse(text.as_str()) {
                    Some(iri) => Some(iri),
                    None => {
                        return Err(SerializationError::WrongShape);
                    },
                },
                _ => {
                    return Err(SerializationError::WrongShape);
                },
            },
        };
        let name = match inner.get("name") {
            None => None,
            Some(value) => match value {
                Json::Null => None,
                _ => match AnyString::from_json(value) {
                    Some(text) => Some(text),
                    None => {
                        return Err(SerializationError::WrongShape);
                    },
                },
            },
        };
        inner.remove("href");
        inner.remove("name");
        Ok(Hashtag07 { href, name, inner })
    }

    /// Retracts the hashtag to its base object.
    pub fn retracting(self) -> (out: Result<PropertyBag, SerializationError>)
        ensures
            match out {
                Ok(inner) => retracted(self@) == Ok::<
                    Map<Seq<char>, JsonValue>,
                    SerializationError,
                >(inner@),
                Err(e) => retracted(self@) == Err::<Map<Seq<char>, JsonValue>, SerializationError>(
                    e,
                ),
            },
    {
        proof {
            reveal_strlit("href");
            reveal_strlit("name");
            assert("href"@[0] != "name"@[0]);
        }
        let Hashtag07 { href, name, inner } = self;
        let mut inner = inner;
        if (href.is_some() && inner.contains_key("href")) || (name.is_some() && inner.contains_key(
            "name",
        )) {
            return Err(SerializationError::Conflict);
        }
        match href {
            Some(iri) => {
                match inner.insert("href".to_owned(), Json::string(iri.as_str())) {
                    Ok(_) => {},
                    Err(e) => {
                        return Err(e);
                    },
                }
            },
            None => {},
        }
        match name {
            Some(text) => {
                match inner.insert("name".to_owned(), text.into_json()) {
                    Ok(_) => {},
                    Err(e) => {
                        return Err(e);
                    },
                }
            },
            None => {},
        }
        Ok(inner)
    }
}

/// What holds a hashtag.
pub trait AsHashtag {
    /// The hashtag that is held.
    spec fn hashtag(&self) -> HashtagModel;

    fn hashtag_ref(&self) -> (tag: &Hashtag07)
        ensures
            tag@ == self.hashtag(),
    ;

    fn hashtag_mut(&mut self) -> (tag: &mut Hashtag07)
        ensures
            tag@ == old(self).hashtag(),
            final(self).hashtag() == final(tag)@,
    ;
}

impl AsHashtag for Hashtag07 {
    open spec fn hashtag(&self) -> HashtagModel {
        self@
    }

    fn hashtag_ref(&self) -> (tag: &Hashtag07) {
        self
    }

    fn hashtag_mut(&mut self) -> (tag: &mut Hashtag07) {
        self
    }
}

/// The target and the name of whatever holds a hashtag.
pub trait HashtagExt: AsHashtag + Sized {
    /// The target.
    fn href(&self) -> (href: Option<&Iri>)
        ensures
            match href {
                Some(iri) => self.hashtag().href == Some(iri@),
                None => self.hashtag().href is None,
            },
    {
        self.hashtag_ref().href.as_ref()
    }

    /// Sets the target.
    fn set_href(&mut self, href: Iri) -> (this: &mut Self)
        ensures
            this.hashtag() == (HashtagModel { href: Some(href@), ..old(self).hashtag() }),
            *final(self) == *final(this),
    {
        self.hashtag_mut().href = Some(href);
        self
    }

    /// Takes the target away and hands it out.
    fn take_href(&mut self) -> (href: Option<Iri>)
        ensures
            iri_view(href) == old(self).hashtag().href,
            final(self).hashtag() == (HashtagModel { href: None, ..old(self).hashtag() }),
    {
        self.hashtag_mut().href.take()
    }

    /// Takes the target away.
    fn delete_href(&mut self) -> (this: &mut Self)
        ensures
            this.hashtag() == (HashtagModel { href: None, ..old(self).hashtag() }),
            *final(self) == *final(this),
    {
        self.hashtag_mut().href = None;
        self
    }

    /// The name.
    fn name(&self) -> (name: Option<&AnyString>)
        ensures
            match name {
                Some(text) => self.hashtag().name == Some(text@),
                None => self.hashtag().name is None,
            },
    {
        self.hashtag_ref().name.as_ref()
    }

    /// Sets the name.
    fn set_name(&mut self, name: AnyString) -> (this: &mut Self)
        ensures
            this.hashtag() == (HashtagModel { name: Some(name@), ..old(self).hashtag() }),
            *final(self) == *final(this),
    {
        self.hashtag_mut().name = Some(name);
        self
    }

    /// Takes the name away and hands it out.
    fn take_name(&mut self) -> (name: Option<AnyString>)
        ensures
            any_string_view(name) == old(self).hashtag().name,
            final(self).hashtag() == (HashtagModel { name: None, ..old(self).hashtag() }),
    {
        self.hashtag_mut().name.take()
    }

    /// Takes the name away.
    fn delete_name(&mut self) -> (this: &mut Self)
        ensures
            this.hashtag() == (HashtagModel { name: None, ..old(self).hashtag() }),
            *final(self) == *final(this),
    {
        self.hashtag_mut().name = None;
        self
    }
}

impl<T> HashtagExt for T where T: AsHashtag {
}

} // verus!
