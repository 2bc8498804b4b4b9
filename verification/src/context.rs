//! The canonical JSON-LD context, and the envelope that attaches it to a
//! document before the document leaves the server.

use crate::bag::{as_map, distinct_names, lemma_with, with, PropertyBag, SerializationError};
use crate::json::{items_view, lemma_json_view, members_view, Json, JsonValue, Member};
use crate::render::{json_text, to_text};
use vstd::prelude::*;

verus! {

pub const CONTEXT_URL: &'static str = "https://www.w3.org/ns/activitystreams";

pub const PUBLIC_VISIBILITY: &'static str = "https://www.w3.org/ns/activitystreams#Public";

pub const AP_CONTENT_TYPE: &'static str =
    "application/ld+json; profile=\"https://www.w3.org/ns/activitystreams\"";

/// The media type of a rendered activity.
pub const ACTIVITY_CONTENT_TYPE: &'static str = "application/activity+json";

/// The name of the property that holds the context.
pub open spec fn context_key() -> Seq<char> {
    "@context"@
}

/// A member of the alias map: a short name and what it stands for.
pub open spec fn alias(name: Seq<char>, target: Seq<char>) -> (Seq<char>, JsonValue) {
    (name, JsonValue::Str(target))
}

/// The canonical context: the activity vocabulary, the security vocabulary,
/// and the aliases of the extension properties.
pub open spec fn canonical_context() -> JsonValue {
    JsonValue::Array(
        seq![
            JsonValue::Str("https://www.w3.org/ns/activitystreams"@),
            JsonValue::Str("https://w3id.org/security/v1"@),
            JsonValue::Object(
                seq![
                    alias("manuallyApprovesFollowers"@, "as:manuallyApprovesFollowers"@),
                    alias("sensitive"@, "as:sensitive"@),
                    alias("movedTo"@, "as:movedTo"@),
                    alias("Hashtag"@, "as:Hashtag"@),
                    alias("ostatus"@, "http://ostatus.org#"@),
                    alias("atomUri"@, "ostatus:atomUri"@),
                    alias("inReplyToAtomUri"@, "ostatus:inReplyToAtomUri"@),
                    alias("conversation"@, "ostatus:conversation"@),
                    alias("toot"@, "http://joinmastodon.org/ns#"@),
                    alias("Emoji"@, "toot:Emoji"@),
                    (
                        "focalPoint"@,
                        JsonValue::Object(
                            seq![alias("@container"@, "@list"@), alias("@id"@, "toot:focalPoint"@)],
                        ),
                    ),
                    alias("featured"@, "toot:featured"@),
                ],
            ),
        ],
    )
}

fn alias_member(name: &str, target: &str) -> (member: Member)
    ensures
        member@ == alias(name@, target@),
{
    Member { name: name.to_owned(), value: Json::string(target) }
}

/// The canonical context as a document.
pub fn context() -> (value: Json)
    ensures
        value@ == canonical_context(),
{
    let mut focal: Vec<Member> = Vec::new();
    focal.push(alias_member("@container", "@list"));
    focal.push(alias_member("@id", "toot:focalPoint"));
    let focal_point = Json::object(focal);
    assert(focal_point@->Object_0 =~= seq![
        alias("@container"@, "@list"@),
        alias("@id"@, "toot:focalPoint"@),
    ]);
    let mut aliases: Vec<Member> = Vec::new();
    aliases.push(alias_member("manuallyApprovesFollowers", "as:manuallyApprovesFollowers"));
    aliases.push(alias_member("sensitive", "as:sensitive"));
    aliases.push(alias_member("movedTo", "as:movedTo"));
    aliases.push(alias_member("Hashtag", "as:Hashtag"));
    aliases.push(alias_member("ostatus", "http://ostatus.org#"));
    aliases.push(alias_member("atomUri", "ostatus:atomUri"));
    aliases.push(alias_member("inReplyToAtomUri", "ostatus:inReplyToAtomUri"));
    aliases.push(alias_member("conversation", "ostatus:conversation"));
    aliases.push(alias_member("toot", "http://joinmastodon.org/ns#"));
    aliases.push(alias_member("Emoji", "toot:Emoji"));
    aliases.push(Member { name: "focalPoint".to_owned(), value: focal_point });
    aliases.push(alias_member("featured", "toot:featured"));
    let alias_map = Json::object(aliases);
    assert(alias_map@->Object_0 =~= canonical_context()->Array_0[2]->Object_0);
    let mut items: Vec<Json> = Vec::new();
    items.push(Json::string(CONTEXT_URL));
    items.push(Json::string("https://w3id.org/security/v1"));
    items.push(alias_map);
    let value = Json::array(items);
    assert(value@->Array_0 =~= canonical_context()->Array_0);
    value
}

/// A document with the canonical context attached. The context takes the
/// place of whatever the document held under that name; nothing is merged.
/// A document that is neither an object with distinct names nor `null` has
/// no place for it.
pub open spec fn with_context(doc: JsonValue) -> Result<JsonValue, SerializationError> {
    match doc {
        JsonValue::Object(members) => if distinct_names(members) {
            Ok(JsonValue::Object(with(members, context_key(), canonical_context())))
        } else {
            Err(SerializationError::WrongShape)
        },
        JsonValue::Null => Ok(JsonValue::Object(seq![(context_key(), canonical_context())])),
        _ => Err(SerializationError::WrongShape),
    }
}

/// The model of a document or of the reason why there is none.
pub open spec fn outcome_view(out: Result<Json, SerializationError>) -> Result<
    JsonValue,
    SerializationError,
> {
    match out {
        Ok(doc) => Ok(doc@),
        Err(e) => Err(e),
    }
}

/// Whatever a document held under the context's name, afterwards it holds
/// the canonical context there, and every other property is as it was.
pub proof fn lemma_context_overwritten(members: Seq<(Seq<char>, JsonValue)>)
    requires
        distinct_names(members),
    ensures
        with_context(JsonValue::Object(members)) matches Ok(JsonValue::Object(after))
            && distinct_names(after) && as_map(after) == as_map(members).insert(
            context_key(),
            canonical_context(),
        ) && as_map(after)[context_key()] == canonical_context(),
{
    lemma_with(members, context_key(), canonical_context());
}

/// A document that has been given the canonical context is an object that
/// holds the canonical context under the context's name, whatever it held
/// before.
pub proof fn lemma_context_attached(doc: JsonValue)
    ensures
        with_context(doc) matches Ok(after) ==> (after matches JsonValue::Object(members)
            && distinct_names(members) && as_map(members).dom().contains(context_key())
            && as_map(members)[context_key()] == canonical_context()),
{
    match doc {
        JsonValue::Object(members) => {
            if distinct_names(members) {
                lemma_context_overwritten(members);
            }
        },
        JsonValue::Null => {
            let after = seq![(context_key(), canonical_context())];
            crate::bag::lemma_as_map_at(after, 0);
        },
        _ => {},
    }
}

/// Attaches the canonical context to `doc`.
pub fn inject_context(doc: Json) -> (out: Result<Json, SerializationError>)
    ensures
        outcome_view(out) == with_context(doc@),
{
    proof {
        lemma_json_view(doc);
    }
    match doc {
        Json::Object(members) => {
            match PropertyBag::from_members(members) {
                Some(bag) => {
                    let mut bag = bag;
                    bag.set("@context".to_owned(), context());
                    Ok(Json::object(bag.into_members()))
                },
                None => Err(SerializationError::WrongShape),
            }
        },
        Json::Null => {
            let mut members: Vec<Member> = Vec::new();
            members.push(Member { name: "@context".to_owned(), value: context() });
            let out = Json::object(members);
            assert(out@->Object_0 =~= seq![(context_key(), canonical_context())]);
            Ok(out)
        },
        _ => Err(SerializationError::WrongShape),
    }
}

/// What can be turned into a JSON document.
pub trait IntoJson: Sized {
    /// The document that the value turns into, or the reason why it does not.
    spec fn json(self) -> Result<JsonValue, SerializationError>;

    fn into_json(self) -> (out: Result<Json, SerializationError>)
        ensures
            outcome_view(out) == self.json(),
    ;
}

impl IntoJson for Json {
    open spec fn json(self) -> Result<JsonValue, SerializationError> {
        Ok(self@)
    }

    fn into_json(self) -> (out: Result<Json, SerializationError>) {
        Ok(self)
    }
}

impl IntoJson for PropertyBag {
    open spec fn json(self) -> Result<JsonValue, SerializationError> {
        Ok(JsonValue::Object(self.members()))
    }

    fn into_json(self) -> (out: Result<Json, SerializationError>) {
        Ok(Json::object(self.into_members()))
    }
}

/// The envelope of an entity that is about to be sent or answered with.
pub struct ActivityStream<T>(T);

/// A rendered envelope: the text of the document and its media type.
#[derive(Debug, PartialEq, Eq)]
pub struct Rendered {
    pub content_type: String,
    pub body: String,
}

/// The document that the envelope of `entity` renders to.
pub open spec fn enveloped<T: IntoJson>(entity: T) -> Result<JsonValue, SerializationError> {
    match entity.json() {
        Ok(doc) => with_context(doc),
        Err(e) => Err(e),
    }
}

impl<T> ActivityStream<T> {
    /// The entity inside the envelope.
    pub closed spec fn entity(self) -> T {
        self.0
    }

    pub fn new(t: T) -> (stream: ActivityStream<T>)
        ensures
            stream.entity() == t,
    {
        ActivityStream(t)
    }

    pub fn into_inner(self) -> (t: T)
        ensures
            t == self.entity(),
    {
        self.0
    }
}

impl<T: IntoJson> ActivityStream<T> {
    /// The document of the entity with the canonical context attached.
    pub fn render(self) -> (out: Result<Json, SerializationError>)
        ensures
            outcome_view(out) == enveloped(self.entity()),
    {
        match self.0.into_json() {
            Ok(doc) => inject_context(doc),
            Err(e) => Err(e),
        }
    }

    /// The answer to a request for the entity: the text of the rendered
    /// document under the media type of activities, or nothing at all where
    /// the entity has no document.
    pub fn respond_to(self) -> (out: Result<Rendered, SerializationError>)
        ensures
            match out {
                Ok(rendered) => enveloped(self.entity()) matches Ok(doc) && rendered.body@
                    == json_text(doc) && rendered.content_type@ == ACTIVITY_CONTENT_TYPE@,
                Err(e) => enveloped(self.entity()) == Err::<JsonValue, SerializationError>(e),
            },
    {
        match self.render() {
            Ok(doc) => Ok(
                Rendered { content_type: ACTIVITY_CONTENT_TYPE.to_owned(), body: to_text(&doc) },
            ),
            Err(e) => Err(e),
        }
    }
}

} // verus!
