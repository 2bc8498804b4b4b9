//! Typed extensions of the vocabulary. An extension claims some property
//! names. Reading a document takes the claimed properties out of the bag and
//! makes a typed value of them; writing puts them back. What no extension
//! claims stays in the bag untouched.

use crate::bag::{PropertyBag, SerializationError};
use crate::iri::{is_iri, Iri};
use crate::json::{string_member, Json, JsonValue, Member};
use crate::text::texts;
use vstd::prelude::*;

verus! {

/// A typed extension of the vocabulary.
pub trait UnparsedExtension: Sized + View {
    /// The property names that the extension claims.
    spec fn claimed() -> Set<Seq<char>>;

    /// The extension that the claimed properties of a bag make, or the
    /// reason why they make none.
    spec fn decode(fields: Map<Seq<char>, JsonValue>) -> Result<Self::V, SerializationError>;

    /// The properties that the extension writes.
    spec fn encode(ext: Self::V) -> Map<Seq<char>, JsonValue>;

    /// An extension writes under names that it claims, and under no others.
    proof fn lemma_encodes_claimed(ext: Self::V)
        ensures
            Self::encode(ext).dom().subset_of(Self::claimed()),
    ;

    /// The claimed names, for a caller that sorts the properties of a
    /// document by who claims them.
    fn claimed_names() -> (names: Vec<&'static str>)
        ensures
            forall|name: Seq<char>| #[trigger]
                Self::claimed().contains(name) <==> texts(names@).contains(name),
    ;

    /// Takes the extension out of the bag: the claimed properties make the
    /// extension, and the claimed names leave the bag. Where they make none
    /// the bag stays as it was.
    fn try_from_unparsed(unparsed: &mut PropertyBag) -> (out: Result<Self, SerializationError>)
        ensures
            match out {
                Ok(ext) => Self::decode(old(unparsed)@.restrict(Self::claimed())) == Ok::<
                    Self::V,
                    SerializationError,
                >(ext@) && final(unparsed)@ == old(unparsed)@.remove_keys(Self::claimed()),
                Err(e) => Self::decode(old(unparsed)@.restrict(Self::claimed())) == Err::<
                    Self::V,
                    SerializationError,
                >(e) && final(unparsed)@ == old(unparsed)@,
            },
    ;

    /// Puts the extension into the bag: the properties that it writes join
    /// the bag. Where the bag holds one of their names already, that is a
    /// conflict and the bag stays as it was.
    fn try_into_unparsed(self, unparsed: &mut PropertyBag) -> (out: Result<
        (),
        SerializationError,
    >)
        ensures
            match out {
                Ok(_) => old(unparsed)@.dom().disjoint(Self::encode(self@).dom())
                    && final(unparsed)@ == old(unparsed)@.union_prefer_right(
                    Self::encode(self@),
                ),
                Err(e) => e == SerializationError::Conflict && !old(unparsed)@.dom().disjoint(
                    Self::encode(self@).dom(),
                ) && final(unparsed)@ == old(unparsed)@,
            },
    ;
}

/// What taking an extension out of a bag gives: the extension that the
/// claimed properties make, and the bag without the claimed names.
pub open spec fn taken<E: UnparsedExtension>(bag: Map<Seq<char>, JsonValue>) -> Result<
    (E::V, Map<Seq<char>, JsonValue>),
    SerializationError,
> {
    match E::decode(bag.restrict(E::claimed())) {
        Ok(ext) => Ok((ext, bag.remove_keys(E::claimed()))),
        Err(e) => Err(e),
    }
}

/// What putting an extension into a bag gives: the bag with the properties
/// that the extension writes, unless the bag holds one of their names.
pub open spec fn put<E: UnparsedExtension>(ext: E::V, bag: Map<Seq<char>, JsonValue>) -> Result<
    Map<Seq<char>, JsonValue>,
    SerializationError,
> {
    if bag.dom().disjoint(E::encode(ext).dom()) {
        Ok(bag.union_prefer_right(E::encode(ext)))
    } else {
        Err(SerializationError::Conflict)
    }
}

/// Taking an extension out of a bag and putting it back gives the bag again,
/// wherever the claimed part of the bag is what the extension writes.
pub proof fn lemma_put_taken<E: UnparsedExtension>(bag: Map<Seq<char>, JsonValue>)
    requires
        taken::<E>(bag) matches Ok(parts) && E::encode(parts.0) == bag.restrict(E::claimed()),
    ensures
        taken::<E>(bag) matches Ok(parts) && put::<E>(parts.0, parts.1) == Ok::<
            Map<Seq<char>, JsonValue>,
            SerializationError,
        >(bag),
{
    let parts = taken::<E>(bag)->Ok_0;
    assert(parts.1.dom().disjoint(E::encode(parts.0).dom()));
    assert(parts.1.union_prefer_right(E::encode(parts.0)) =~= bag);
}

/// Putting an extension into a bag that holds no claimed name, and taking it
/// out again, gives the extension and the bag, wherever the extension reads
/// back what it wrote.
pub proof fn lemma_taken_put<E: UnparsedExtension>(ext: E::V, bag: Map<Seq<char>, JsonValue>)
    requires
        bag.dom().disjoint(E::claimed()),
        E::decode(E::encode(ext)) == Ok::<E::V, SerializationError>(ext),
    ensures
        put::<E>(ext, bag) matches Ok(after) && taken::<E>(after) == Ok::<
            (E::V, Map<Seq<char>, JsonValue>),
            SerializationError,
        >((ext, bag)),
{
    E::lemma_encodes_claimed(ext);
    let fields = E::encode(ext);
    assert(bag.dom().disjoint(fields.dom()));
    let after = bag.union_prefer_right(fields);
    assert(after.restrict(E::claimed()) =~= fields);
    assert(after.remove_keys(E::claimed()) =~= bag);
}

/// The text of the property `name`, which must be there and be a string.
pub open spec fn string_in(fields: Map<Seq<char>, JsonValue>, name: Seq<char>) -> Result<
    Seq<char>,
    SerializationError,
> {
    if !fields.dom().contains(name) {
        Err(SerializationError::Missing)
    } else {
        match fields[name] {
            JsonValue::Str(text) => Ok(text),
            _ => Err(SerializationError::WrongShape),
        }
    }
}

/// The view of a text or of the reason why there is none.
pub open spec fn text_outcome(out: Result<String, SerializationError>) -> Result<
    Seq<char>,
    SerializationError,
> {
    match out {
        Ok(text) => Ok(text@),
        Err(e) => Err(e),
    }
}

/// A copy of the text of the property `name`.
pub fn peek_string(bag: &PropertyBag, name: &str) -> (out: Result<String, SerializationError>)
    ensures
        text_outcome(out) == string_in(bag@, name@),
{
    match bag.get(name) {
        None => Err(SerializationError::Missing),
        Some(value) => match value.as_str() {
            Some(text) => Ok(text.to_owned()),
            None => Err(SerializationError::WrongShape),
        },
    }
}

/// Where a piece of content came from: its text and the media type of that
/// text.
#[derive(Debug, PartialEq, Eq)]
pub struct Source {
    pub media_type: String,
    pub content: String,
}

/// The model of a `Source`.
pub struct SourceModel {
    pub media_type: Seq<char>,
    pub content: Seq<char>,
}

impl View for Source {
    type V = SourceModel;

    open spec fn view(&self) -> SourceModel {
        SourceModel { media_type: self.media_type@, content: self.content@ }
    }
}

impl UnparsedExtension for Source {
    open spec fn claimed() -> Set<Seq<char>> {
        set!["content"@, "mediaType"@]
    }

    open spec fn decode(fields: Map<Seq<char>, JsonValue>) -> Result<
        SourceModel,
        SerializationError,
    > {
        match string_in(fields, "content"@) {
            Err(e) => Err(e),
            Ok(content) => match string_in(fields, "mediaType"@) {
                Err(e) => Err(e),
                Ok(media_type) => Ok(SourceModel { media_type, content }),
            },
        }
    }

    open spec fn encode(ext: SourceModel) -> Map<Seq<char>, JsonValue> {
        map!["content"@ => JsonValue::Str(ext.content), "mediaType"@ => JsonValue::Str(ext.media_type)]
    }

    proof fn lemma_encodes_claimed(ext: SourceModel) {
    }

    fn claimed_names() -> (names: Vec<&'static str>) {
        let mut names: Vec<&'static str> = Vec::new();
        names.push("content");
        names.push("mediaType");
        proof {
            assert(texts(names@)[0] == "content"@);
            assert(texts(names@)[1] == "mediaType"@);
        }
        names
    }

    fn try_from_unparsed(unparsed: &mut PropertyBag) -> (out: Result<Source, SerializationError>) {
        let ghost fields = unparsed@.restrict(Self::claimed());
        assert(string_in(fields, "content"@) == string_in(unparsed@, "content"@));
        assert(string_in(fields, "mediaType"@) == string_in(unparsed@, "mediaType"@));
        let content = match peek_string(unparsed, "content") {
            Ok(text) => text,
            Err(e) => {
                return Err(e);
            },
        };
        let media_type = match peek_string(unparsed, "mediaType") {
            Ok(text) => text,
            Err(e) => {
                return Err(e);
            },
        };
        unparsed.remove("content");
        unparsed.remove("mediaType");
        assert(unparsed@ =~= old(unparsed)@.remove_keys(Self::claimed()));
        Ok(Source { media_type, content })
    }

    fn try_into_unparsed(self, unparsed: &mut PropertyBag) -> (out: Result<
        (),
        SerializationError,
    >) {
        proof {
            reveal_strlit("content");
            reveal_strlit("mediaType");
            assert("content"@.len() != "mediaType"@.len());
        }
        if unparsed.contains_key("content") || unparsed.contains_key("mediaType") {
            assert(Self::encode(self@).dom().contains("content"@));
            assert(Self::encode(self@).dom().contains("mediaType"@));
            return Err(SerializationError::Conflict);
        }
        match unparsed.insert("content".to_owned(), Json::Str(self.content)) {
            Ok(_) => {},
            Err(e) => {
                return Err(e);
            },
        }
        match unparsed.insert("mediaType".to_owned(), Json::Str(self.media_type)) {
            Ok(_) => {},
            Err(e) => {
                return Err(e);
            },
        }
        assert(unparsed@ =~= old(unparsed)@.union_prefer_right(Self::encode(self@)));
        Ok(())
    }
}

/// The licence of a piece of content.
#[derive(Debug, PartialEq, Eq)]
pub struct Licensed07 {
    pub license: String,
}

/// The model of a `Licensed07`.
pub struct LicensedModel {
    pub license: Seq<char>,
}

impl View for Licensed07 {
    type V = LicensedModel;

    open spec fn view(&self) -> LicensedModel {
        LicensedModel { license: self.license@ }
    }
}

impl UnparsedExtension for Licensed07 {
    open spec fn claimed() -> Set<Seq<char>> {
        set!["license"@]
    }

    open spec fn decode(fields: Map<Seq<char>, JsonValue>) -> Result<
        LicensedModel,
        SerializationError,
    > {
        match string_in(fields, "license"@) {
            Err(e) => Err(e),
            Ok(license) => Ok(LicensedModel { license }),
        }
    }

    open spec fn encode(ext: LicensedModel) -> Map<Seq<char>, JsonValue> {
        map!["license"@ => JsonValue::Str(ext.license)]
    }

    proof fn lemma_encodes_claimed(ext: LicensedModel) {
    }

    fn claimed_names() -> (names: Vec<&'static str>) {
        let mut names: Vec<&'static str> = Vec::new();
        names.push("license");
        proof {
            assert(texts(names@)[0] == "license"@);
        }
        names
    }

    fn try_from_unparsed(unparsed: &mut PropertyBag) -> (out: Result<
        Licensed07,
        SerializationError,
    >) {
        let ghost fields = unparsed@.restrict(Self::claimed());
        assert(string_in(fields, "license"@) == string_in(unparsed@, "license"@));
        let license = match peek_string(unparsed, "license") {
            Ok(text) => text,
            Err(e) => {
                return Err(e);
            },
        };
        unparsed.remove("license");
        assert(unparsed@ =~= old(unparsed)@.remove_keys(Self::claimed()));
        Ok(Licensed07 { license })
    }

    fn try_into_unparsed(self, unparsed: &mut PropertyBag) -> (out: Result<
        (),
        SerializationError,
    >) {
        assert(Self::encode(self@).dom().contains("license"@));
        match unparsed.insert("license".to_owned(), Json::Str(self.license)) {
            Ok(_) => {
                assert(unparsed@ =~= old(unparsed)@.union_prefer_right(Self::encode(self@)));
                Ok(())
            },
            Err(e) => Err(e),
        }
    }
}

/// A public key: where it is found, whose it is, and the key itself in PEM.
#[derive(Debug, PartialEq, Eq)]
pub struct PublicKey07 {
    pub id: Iri,
    pub owner: Iri,
    pub public_key_pem: String,
}

/// The model of a `PublicKey07`.
pub struct PublicKeyModel {
    pub id: Seq<char>,
    pub owner: Seq<char>,
    pub public_key_pem: Seq<char>,
}

impl View for PublicKey07 {
    type V = PublicKeyModel;

    open spec fn view(&self) -> PublicKeyModel {
        PublicKeyModel { id: self.id@, owner: self.owner@, public_key_pem: self.public_key_pem@ }
    }
}

/// The key that a JSON value describes: an object with the strings `id`,
/// `owner` and `publicKeyPem`, the first two of them IRIs. Other members are
/// passed over.
pub open spec fn public_key_of(value: JsonValue) -> Option<PublicKeyModel> {
    match (
        string_member(value, "id"@),
        string_member(value, "owner"@),
        string_member(value, "publicKeyPem"@),
    ) {
        (Some(id), Some(owner), Some(public_key_pem)) => if is_iri(id) && is_iri(owner) {
            Some(PublicKeyModel { id, owner, public_key_pem })
        } else {
            None
        },
        _ => None,
    }
}

/// The JSON value that describes a key.
pub open spec fn public_key_value(key: PublicKeyModel) -> JsonValue {
    JsonValue::Object(
        seq![
            ("id"@, JsonValue::Str(key.id)),
            ("owner"@, JsonValue::Str(key.owner)),
            ("publicKeyPem"@, JsonValue::Str(key.public_key_pem)),
        ],
    )
}

/// The view of a key that may be absent.
pub open spec fn key_view(key: Option<PublicKey07>) -> Option<PublicKeyModel> {
    match key {
        Some(k) => Some(k@),
        None => None,
    }
}

fn named(name: &str, text: String) -> (member: Member)
    ensures
        member@ == (name@, JsonValue::Str(text@)),
{
    Member { name: name.to_owned(), value: Json::Str(text) }
}

impl PublicKey07 {
    /// The key that `value` describes.
    pub fn from_json(value: &Json) -> (key: Option<PublicKey07>)
        ensures
            key_view(key) == public_key_of(value@),
    {
        let id = match value.string_member("id") {
            Some(text) => text,
            None => {
                return None;
            },
        };
        let owner = match value.string_member("owner") {
            Some(text) => text,
            None => {
                return None;
            },
        };
        let public_key_pem = match value.string_member("publicKeyPem") {
            Some(text) => text,
            None => {
                return None;
            },
        };
        let id = match Iri::parse(id.as_str()) {
            Some(iri) => iri,
            None => {
                return None;
            },
        };
        let owner = match Iri::parse(owner.as_str()) {
            Some(iri) => iri,
            None => {
                return None;
            },
        };
        Some(PublicKey07 { id, owner, public_key_pem })
    }

    /// The JSON value that describes the key.
    pub fn into_json(self) -> (value: Json)
        ensures
            value@ == public_key_value(self@),
    {
        let mut members: Vec<Member> = Vec::new();
        members.push(named("id", self.id.as_str().to_owned()));
        members.push(named("owner", self.owner.as_str().to_owned()));
        members.push(named("publicKeyPem", self.public_key_pem));
        let value = Json::object(members);
        assert(value@->Object_0 =~= public_key_value(self@)->Object_0);
        value
    }
}

/// A typed extension: the public key of an actor.
#[derive(Debug, PartialEq, Eq)]
pub struct ApSignature07 {
    pub public_key: PublicKey07,
}

/// The model of an `ApSignature07`.
pub struct ApSignatureModel {
    pub public_key: PublicKeyModel,
}

impl View for ApSignature07 {
    type V = ApSignatureModel;

    open spec fn view(&self) -> ApSignatureModel {
        ApSignatureModel { public_key: self.public_key@ }
    }
}

impl UnparsedExtension for ApSignature07 {
    open spec fn claimed() -> Set<Seq<char>> {
        set!["publicKey"@]
    }

    open spec fn decode(fields: Map<Seq<char>, JsonValue>) -> Result<
        ApSignatureModel,
        SerializationError,
    > {
        if !fields.dom().contains("publicKey"@) {
            Err(SerializationError::Missing)
        } else {
            match public_key_of(fields["publicKey"@]) {
                Some(public_key) => Ok(ApSignatureModel { public_key }),
                None => Err(SerializationError::WrongShape),
            }
        }
    }

    open spec fn encode(ext: ApSignatureModel) -> Map<Seq<char>, JsonValue> {
        map!["publicKey"@ => public_key_value(ext.public_key)]
    }

    proof fn lemma_encodes_claimed(ext: ApSignatureModel) {
    }

    fn claimed_names() -> (names: Vec<&'static str>) {
        let mut names: Vec<&'static str> = Vec::new();
        names.push("publicKey");
        proof {
            assert(texts(names@)[0] == "publicKey"@);
        }
        names
    }

    fn try_from_unparsed(unparsed: &mut PropertyBag) -> (out: Result<
        ApSignature07,
        SerializationError,
    >) {
        let ghost fields = unparsed@.restrict(Self::claimed());
        assert(fields.dom().contains("publicKey"@) == unparsed@.dom().contains("publicKey"@));
        let public_key = match unparsed.get("publicKey") {
            None => {
                return Err(SerializationError::Missing);
            },
            Some(value) => {
                assert(fields["publicKey"@] == value@);
                match PublicKey07::from_json(value) {
                    Some(key) => key,
                    None => {
                        return Err(SerializationError::WrongShape);
                    },
                }
            },
        };
        unparsed.remove("publicKey");
        assert(unparsed@ =~= old(unparsed)@.remove_keys(Self::claimed()));
        Ok(ApSignature07 { public_key })
    }

    fn try_into_unparsed(self, unparsed: &mut PropertyBag) -> (out: Result<
        (),
        SerializationError,
    >) {
        assert(Self::encode(self@).dom().contains("publicKey"@));
        match unparsed.insert("publicKey".to_owned(), self.public_key.into_json()) {
            Ok(_) => {
                assert(unparsed@ =~= old(unparsed)@.union_prefer_right(Self::encode(self@)));
                Ok(())
            },
            Err(e) => Err(e),
        }
    }
}

/// The source that a JSON value describes: an object with the strings
/// `content` and `mediaType`. Other members are passed over.
pub open spec fn source_of(value: JsonValue) -> Option<SourceModel> {
    match (string_member(value, "content"@), string_member(value, "mediaType"@)) {
        (Some(content), Some(media_type)) => Some(SourceModel { media_type, content }),
        _ => None,
    }
}

/// The JSON value that describes a source.
pub open spec fn source_value(source: SourceModel) -> JsonValue {
    JsonValue::Object(
        seq![
            ("content"@, JsonValue::Str(source.content)),
            ("mediaType"@, JsonValue::Str(source.media_type)),
        ],
    )
}

/// The view of a source that may be absent.
pub open spec fn source_view(source: Option<Source>) -> Option<SourceModel> {
    match source {
        Some(s) => Some(s@),
        None => None,
    }
}

impl Source {
    /// The source that `value` describes.
    pub fn from_json(value: &Json) -> (source: Option<Source>)
        ensures
            source_view(source) == source_of(value@),
    {
        let content = match value.string_member("content") {
            Some(text) => text,
            None => {
                return None;
            },
        };
        let media_type = match value.string_member("mediaType") {
            Some(text) => text,
            None => {
                return None;
            },
        };
        Some(Source { media_type, content })
    }

    /// The JSON value that describes the source.
    pub fn into_json(self) -> (value: Json)
        ensures
            value@ == source_value(self@),
    {
        let mut members: Vec<Member> = Vec::new();
        members.push(named("content", self.content));
        members.push(named("mediaType", self.media_type));
        let value = Json::object(members);
        assert(value@->Object_0 =~= source_value(self@)->Object_0);
        value
    }
}

/// A typed extension: the source of the summary of an actor.
#[derive(Debug, PartialEq, Eq)]
pub struct ActorSource {
    pub source: Source,
}

/// The model of an `ActorSource`.
pub struct ActorSourceModel {
    pub source: SourceModel,
}

impl View for ActorSource {
    type V = ActorSourceModel;

    open spec fn view(&self) -> ActorSourceModel {
        ActorSourceModel { source: self.source@ }
    }
}

impl UnparsedExtension for ActorSource {
    open spec fn claimed() -> Set<Seq<char>> {
        set!["source"@]
    }

    open spec fn decode(fields: Map<Seq<char>, JsonValue>) -> Result<
        ActorSourceModel,
        SerializationError,
    > {
        if !fields.dom().contains("source"@) {
            Err(SerializationError::Missing)
        } else {
            match source_of(fields["source"@]) {
                Some(source) => Ok(ActorSourceModel { source }),
                None => Err(SerializationError::WrongShape),
            }
        }
    }

    open spec fn encode(ext: ActorSourceModel) -> Map<Seq<char>, JsonValue> {
        map!["source"@ => source_value(ext.source)]
    }

    proof fn lemma_encodes_claimed(ext: ActorSourceModel) {
    }

    fn claimed_names() -> (names: Vec<&'static str>) {
        let mut names: Vec<&'static str> = Vec::new();
        names.push("source");
        proof {
            assert(texts(names@)[0] == "source"@);
        }
        names
    }

    fn try_from_unparsed(unparsed: &mut PropertyBag) -> (out: Result<
        ActorSource,
        SerializationError,
    >) {
        let ghost fields = unparsed@.restrict(Self::claimed());
        assert(fields.dom().contains("source"@) == unparsed@.dom().contains("source"@));
        let source = match unparsed.get("source") {
            None => {
                return Err(SerializationError::Missing);
            },
            Some(value) => {
                assert(fields["source"@] == value@);
                match Source::from_json(value) {
                    Some(source) => source,
                    None => {
                        return Err(SerializationError::WrongShape);
                    },
                }
            },
        };
        unparsed.remove("source");
        assert(unparsed@ =~= old(unparsed)@.remove_keys(Self::claimed()));
        Ok(ActorSource { source })
    }

    fn try_into_unparsed(self, unparsed: &mut PropertyBag) -> (out: Result<
        (),
        SerializationError,
    >) {
        assert(Self::encode(self@).dom().contains("source"@));
        match unparsed.insert("source".to_owned(), self.source.into_json()) {
            Ok(_) => {
                assert(unparsed@ =~= old(unparsed)@.union_prefer_right(Self::encode(self@)));
                Ok(())
            },
            Err(e) => Err(e),
        }
    }
}

/// A source reads back what it wrote.
pub proof fn lemma_source_reads_back(ext: SourceModel)
    ensures
        Source::decode(Source::encode(ext)) == Ok::<SourceModel, SerializationError>(ext),
        source_of(source_value(ext)) == Some(ext),
{
    reveal_strlit("content");
    reveal_strlit("mediaType");
    assert("content"@.len() != "mediaType"@.len());
    let members = source_value(ext)->Object_0;
    assert(members.drop_first()[0] == members[1]);
    reveal_with_fuel(crate::json::first_named, 3);
}

/// A key reads back what it wrote, where its `id` and `owner` are IRIs.
pub proof fn lemma_public_key_reads_back(key: PublicKeyModel)
    requires
        is_iri(key.id),
        is_iri(key.owner),
    ensures
        public_key_of(public_key_value(key)) == Some(key),
{
    reveal_strlit("id");
    reveal_strlit("owner");
    reveal_strlit("publicKeyPem");
    assert("id"@.len() != "owner"@.len());
    assert("id"@.len() != "publicKeyPem"@.len());
    assert("owner"@.len() != "publicKeyPem"@.len());
    let members = public_key_value(key)->Object_0;
    assert(members.drop_first()[0] == members[1]);
    assert(members.drop_first().drop_first()[0] == members[2]);
    reveal_with_fuel(crate::json::first_named, 4);
}

/// A source that is taken out of a bag and put back gives the bag again.
pub proof fn lemma_source_round_trip(bag: Map<Seq<char>, JsonValue>)
    requires
        taken::<Source>(bag) is Ok,
    ensures
        taken::<Source>(bag) matches Ok(parts) && put::<Source>(parts.0, parts.1) == Ok::<
            Map<Seq<char>, JsonValue>,
            SerializationError,
        >(bag),
{
    let parts = taken::<Source>(bag)->Ok_0;
    assert(Source::encode(parts.0) =~= bag.restrict(Source::claimed()));
    lemma_put_taken::<Source>(bag);
}

/// A licence that is taken out of a bag and put back gives the bag again.
pub proof fn lemma_licensed_round_trip(bag: Map<Seq<char>, JsonValue>)
    requires
        taken::<Licensed07>(bag) is Ok,
    ensures
        taken::<Licensed07>(bag) matches Ok(parts) && put::<Licensed07>(parts.0, parts.1) == Ok::<
            Map<Seq<char>, JsonValue>,
            SerializationError,
        >(bag),
{
    let parts = taken::<Licensed07>(bag)->Ok_0;
    assert(Licensed07::encode(parts.0) =~= bag.restrict(Licensed07::claimed()));
    lemma_put_taken::<Licensed07>(bag);
}

/// A public key that is taken out of a bag and put back gives the bag again,
/// where the bag described the key by its three members and nothing else.
pub proof fn lemma_signature_round_trip(bag: Map<Seq<char>, JsonValue>)
    requires
        taken::<ApSignature07>(bag) matches Ok(parts) && bag["publicKey"@] == public_key_value(
            parts.0.public_key,
        ),
    ensures
        taken::<ApSignature07>(bag) matches Ok(parts) && put::<ApSignature07>(parts.0, parts.1)
            == Ok::<Map<Seq<char>, JsonValue>, SerializationError>(bag),
{
    let parts = taken::<ApSignature07>(bag)->Ok_0;
    assert(ApSignature07::encode(parts.0) =~= bag.restrict(ApSignature07::claimed()));
    lemma_put_taken::<ApSignature07>(bag);
}

/// The source of an actor that is taken out of a bag and put back gives the
/// bag again, where the bag described the source by its two members and
/// nothing else.
pub proof fn lemma_actor_source_round_trip(bag: Map<Seq<char>, JsonValue>)
    requires
        taken::<ActorSource>(bag) matches Ok(parts) && bag["source"@] == source_value(
            parts.0.source,
        ),
    ensures
        taken::<ActorSource>(bag) matches Ok(parts) && put::<ActorSource>(parts.0, parts.1)
            == Ok::<Map<Seq<char>, JsonValue>, SerializationError>(bag),
{
    let parts = taken::<ActorSource>(bag)->Ok_0;
    assert(ActorSource::encode(parts.0) =~= bag.restrict(ActorSource::claimed()));
    lemma_put_taken::<ActorSource>(bag);
}

} // verus!
