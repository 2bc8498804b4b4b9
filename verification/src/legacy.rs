//! The property structs of the older vocabulary. A property is held as the
//! JSON value it came with and is read as a typed value on demand.

use crate::json::{first_named, lemma_json_view, members_view, Json, JsonValue, Member};
use vstd::prelude::*;

verus! {

/// Why a property could not be read.
#[derive(Clone, Copy, Debug, PartialEq, Eq, Structural)]
pub enum PropertyError {
    /// The property is not set.
    NotFound,
    /// The property is set to a value of another type.
    Deserialize,
}

/// The model of a property that may be unset.
pub open spec fn property_view(property: Option<Json>) -> Option<JsonValue> {
    match property {
        Some(value) => Some(value@),
        None => None,
    }
}

/// The string that a property holds.
pub open spec fn property_string(property: Option<JsonValue>) -> Result<Seq<char>, PropertyError> {
    match property {
        None => Err(PropertyError::NotFound),
        Some(JsonValue::Str(text)) => Ok(text),
        Some(_) => Err(PropertyError::Deserialize),
    }
}

/// The view of a text or of the reason why there is none.
pub open spec fn read_view(out: Result<String, PropertyError>) -> Result<Seq<char>, PropertyError> {
    match out {
        Ok(text) => Ok(text@),
        Err(e) => Err(e),
    }
}

fn read_string(property: &Option<Json>) -> (out: Result<String, PropertyError>)
    ensures
        read_view(out) == property_string(property_view(*property)),
{
    match property {
        None => Err(PropertyError::NotFound),
        Some(value) => match value.as_str() {
            Some(text) => Ok(text.to_owned()),
            None => Err(PropertyError::Deserialize),
        },
    }
}

/// The kind of a hashtag of the older vocabulary.
#[derive(Clone, Copy, Debug, Default, PartialEq, Eq)]
pub struct HashtagType;

impl HashtagType {
    /// The name of the kind as it stands in a document.
    pub fn as_str(&self) -> (name: &'static str)
        ensures
            name@ == "Hashtag"@,
    {
        "Hashtag"
    }
}

/// The licence of a piece of content.
#[derive(Debug, Default, PartialEq, Eq)]
pub struct Licensed {
    pub license: Option<Json>,
}

impl Licensed {
    /// The licence as a string.
    pub fn license_string(&self) -> (out: Result<String, PropertyError>)
        ensures
            read_view(out) == property_string(property_view(self.license)),
    {
        read_string(&self.license)
    }

    /// Sets the licence.
    pub fn set_license_string(&mut self, item: String)
        ensures
            property_view(final(self).license) == Some(JsonValue::Str(item@)),
    {
        self.license = Some(Json::Str(item));
    }
}

/// A hashtag of the older vocabulary.
#[derive(Debug, Default, PartialEq, Eq)]
pub struct Hashtag {
    kind: HashtagType,
    pub href: Option<Json>,
    pub name: Option<Json>,
}

impl Hashtag {
    /// The target of the hashtag.
    pub closed spec fn href_property(self) -> Option<JsonValue> {
        property_view(self.href)
    }

    /// The name of the hashtag.
    pub closed spec fn name_property(self) -> Option<JsonValue> {
        property_view(self.name)
    }

    /// The kind of the hashtag.
    pub fn kind(&self) -> (kind: HashtagType)
        ensures
            kind == HashtagType,
    {
        self.kind
    }

    /// The target as a string.
    pub fn href_string(&self) -> (out: Result<String, PropertyError>)
        ensures
            read_view(out) == property_string(self.href_property()),
    {
        read_string(&self.href)
    }

    /// Sets the target.
    pub fn set_href_string(&mut self, item: String)
        ensures
            final(self).href_property() == Some(JsonValue::Str(item@)),
            final(self).name_property() == old(self).name_property(),
    {
        self.href = Some(Json::Str(item));
    }

    /// The name as a string.
    pub fn name_string(&self) -> (out: Result<String, PropertyError>)
        ensures
            read_view(out) == property_string(self.name_property()),
    {
        read_string(&self.name)
    }

    /// Sets the name.
    pub fn set_name_string(&mut self, item: String)
        ensures
            final(self).name_property() == Some(JsonValue::Str(item@)),
            final(self).href_property() == old(self).href_property(),
    {
        self.name = Some(Json::Str(item));
    }
}

/// A public key of the older vocabulary.
#[derive(Debug, Default, PartialEq, Eq)]
pub struct PublicKey {
    pub id: Option<Json>,
    pub owner: Option<Json>,
    pub public_key_pem: Option<Json>,
}

/// The model of a `PublicKey`: its three properties.
pub struct PublicKeyProperties {
    pub id: Option<JsonValue>,
    pub owner: Option<JsonValue>,
    pub public_key_pem: Option<JsonValue>,
}

impl View for PublicKey {
    type V = PublicKeyProperties;

    open spec fn view(&self) -> PublicKeyProperties {
        PublicKeyProperties {
            id: property_view(self.id),
            owner: property_view(self.owner),
            public_key_pem: property_view(self.public_key_pem),
        }
    }
}

/// The value that a property is written as: `null` where it is unset.
pub open spec fn written_property(property: Option<JsonValue>) -> JsonValue {
    match property {
        Some(value) => value,
        None => JsonValue::Null,
    }
}

/// The property that a member of an object is read as: unset where the
/// member is absent or `null`.
pub open spec fn read_property(members: Seq<(Seq<char>, JsonValue)>, name: Seq<char>) -> Option<
    JsonValue,
> {
    match first_named(members, name) {
        None => None,
        Some(JsonValue::Null) => None,
        Some(value) => Some(value),
    }
}

/// The JSON value that describes a key of the older vocabulary.
pub open spec fn key_value(key: PublicKeyProperties) -> JsonValue {
    JsonValue::Object(
        seq![
            ("id"@, written_property(key.id)),
            ("owner"@, written_property(key.owner)),
            ("publicKeyPem"@, written_property(key.public_key_pem)),
        ],
    )
}

/// The key of the older vocabulary that a property describes.
pub open spec fn key_of(property: Option<JsonValue>) -> Result<PublicKeyProperties, PropertyError> {
    match property {
        None => Err(PropertyError::NotFound),
        Some(JsonValue::Object(members)) => Ok(
            PublicKeyProperties {
                id: read_property(members, "id"@),
                owner: read_property(members, "owner"@),
                public_key_pem: read_property(members, "publicKeyPem"@),
            },
        ),
        Some(_) => Err(PropertyError::Deserialize),
    }
}

fn written(name: &str, property: Option<Json>) -> (member: Member)
    ensures
        member@ == (name@, written_property(property_view(property))),
{
    Member {
        name: name.to_owned(),
        value: match property {
            Some(value) => value,
            None => Json::Null,
        },
    }
}

fn read(value: &Json, name: &str) -> (property: Option<Json>)
    requires
        value@ is Object,
    ensures
        property_view(property) == read_property(value@->Object_0, name@),
{
    match value.member(name) {
        None => None,
        Some(found) => match found {
            Json::Null => None,
            _ => Some(found.duplicate()),
        },
    }
}

impl PublicKey {
    /// Where the key is found, as a string.
    pub fn id_string(&self) -> (out: Result<String, PropertyError>)
        ensures
            read_view(out) == property_string(self@.id),
    {
        read_string(&self.id)
    }

    /// Sets where the key is found.
    pub fn set_id_string(&mut self, item: String)
        ensures
            final(self)@ == (PublicKeyProperties { id: Some(JsonValue::Str(item@)), ..old(self)@ }),
    {
        self.id = Some(Json::Str(item));
    }

    /// Whose key it is, as a string.
    pub fn owner_string(&self) -> (out: Result<String, PropertyError>)
        ensures
            read_view(out) == property_string(self@.owner),
    {
        read_string(&self.owner)
    }

    /// Sets whose key it is.
    pub fn set_owner_string(&mut self, item: String)
        ensures
            final(self)@ == (PublicKeyProperties {
                owner: Some(JsonValue::Str(item@)),
                ..old(self)@
            }),
    {
        self.owner = Some(Json::Str(item));
    }

    /// The key in PEM, as a string.
    pub fn public_key_pem_string(&self) -> (out: Result<String, PropertyError>)
        ensures
            read_view(out) == property_string(self@.public_key_pem),
    {
        read_string(&self.public_key_pem)
    }

    /// Sets the key in PEM.
    pub fn set_public_key_pem_string(&mut self, item: String)
        ensures
            final(self)@ == (PublicKeyProperties {
                public_key_pem: Some(JsonValue::Str(item@)),
                ..old(self)@
            }),
    {
        self.public_key_pem = Some(Json::Str(item));
    }
}

/// The public key of an actor of the older vocabulary.
#[derive(Debug, Default, PartialEq, Eq)]
pub struct ApSignature {
    pub public_key: Option<Json>,
}

/// The view of a key or of the reason why there is none.
pub open spec fn key_outcome(out: Result<PublicKey, PropertyError>) -> Result<
    PublicKeyProperties,
    PropertyError,
> {
    match out {
        Ok(key) => Ok(key@),
        Err(e) => Err(e),
    }
}

impl ApSignature {
    /// The public key as a typed value.
    pub fn public_key_publickey(&self) -> (out: Result<PublicKey, PropertyError>)
        ensures
            key_outcome(out) == key_of(property_view(self.public_key)),
    {
        match &self.public_key {
            None => Err(PropertyError::NotFound),
            Some(value) => {
                proof {
                    lemma_json_view(*value);
                }
                match value {
                    Json::Object(_) => Ok(
                        PublicKey {
                            id: read(value, "id"),
                            owner: read(value, "owner"),
                            public_key_pem: read(value, "publicKeyPem"),
                        },
                    ),
                    _ => Err(PropertyError::Deserialize),
                }
            },
        }
    }

    /// Sets the public key.
    pub fn set_public_key_publickey(&mut self, item: PublicKey)
        ensures
            property_view(final(self).public_key) == Some(key_value(item@)),
    {
        let mut members: Vec<Member> = Vec::new();
        members.push(written("id", item.id));
        members.push(written("owner", item.owner));
        members.push(written("publicKeyPem", item.public_key_pem));
        let value = Json::object(members);
        assert(value@->Object_0 =~= key_value(item@)->Object_0);
        self.public_key = Some(value);
    }
}

} // verus!
