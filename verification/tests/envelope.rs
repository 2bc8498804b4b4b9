use activity_pub::render::to_text;
use activity_pub::{
    context, ActivityStream, Json, Member, PropertyBag, SerializationError, ACTIVITY_CONTENT_TYPE,
    AP_CONTENT_TYPE, CONTEXT_URL, PUBLIC_VISIBILITY,
};
use serde_json::Value;

fn to_value(doc: &Json) -> Value {
    match doc {
        Json::Null => Value::Null,
        Json::Bool(b) => Value::Bool(*b),
        Json::Number(text) => serde_json::from_str(text).unwrap(),
        Json::Str(text) => Value::String(text.clone()),
        Json::Array(items) => Value::Array(items.iter().map(to_value).collect()),
        Json::Object(members) => {
            Value::Object(members.iter().map(|m| (m.name.clone(), to_value(&m.value))).collect())
        }
    }
}

fn object(members: Vec<(&str, Value)>) -> Value {
    Value::Object(members.into_iter().map(|(name, value)| (name.to_string(), value)).collect())
}

fn text(value: &str) -> Value {
    Value::String(value.to_string())
}

fn member(name: &str, value: Json) -> Member {
    Member { name: name.to_string(), value }
}

fn expected_context() -> Value {
    Value::Array(vec![
        text("https://www.w3.org/ns/activitystreams"),
        text("https://w3id.org/security/v1"),
        object(vec![
            ("manuallyApprovesFollowers", text("as:manuallyApprovesFollowers")),
            ("sensitive", text("as:sensitive")),
            ("movedTo", text("as:movedTo")),
            ("Hashtag", text("as:Hashtag")),
            ("ostatus", text("http://ostatus.org#")),
            ("atomUri", text("ostatus:atomUri")),
            ("inReplyToAtomUri", text("ostatus:inReplyToAtomUri")),
            ("conversation", text("ostatus:conversation")),
            ("toot", text("http://joinmastodon.org/ns#")),
            ("Emoji", text("toot:Emoji")),
            (
                "focalPoint",
                object(vec![("@container", text("@list")), ("@id", text("toot:focalPoint"))]),
            ),
            ("featured", text("toot:featured")),
        ]),
    ])
}

#[test]
fn constants_have_their_values() {
    assert_eq!(CONTEXT_URL, "https://www.w3.org/ns/activitystreams");
    assert_eq!(PUBLIC_VISIBILITY, "https://www.w3.org/ns/activitystreams#Public");
    assert_eq!(
        AP_CONTENT_TYPE,
        "application/ld+json; profile=\"https://www.w3.org/ns/activitystreams\""
    );
    assert_eq!(ACTIVITY_CONTENT_TYPE, "application/activity+json");
}

#[test]
fn context_is_the_canonical_structure() {
    assert_eq!(to_value(&context()), expected_context());
}

#[test]
fn render_attaches_the_context() {
    let doc = Json::Object(vec![
        member("type", Json::string("Note")),
        member("content", Json::string("hello")),
    ]);
    let rendered = ActivityStream::new(doc).render().unwrap();
    let expected = object(vec![
        ("type", text("Note")),
        ("content", text("hello")),
        ("@context", expected_context()),
    ]);
    assert_eq!(to_value(&rendered), expected);
}

#[test]
fn render_overwrites_a_context_that_is_there() {
    let doc = Json::Object(vec![
        member(
            "@context",
            Json::Object(vec![member("mine", Json::string("https://example.com/ns#"))]),
        ),
        member("type", Json::string("Note")),
    ]);
    let rendered = ActivityStream::new(doc).render().unwrap();
    match &rendered {
        Json::Object(members) => {
            assert_eq!(members.len(), 2);
            assert_eq!(members[0].name, "@context");
            assert_eq!(members[0].value, context());
            assert_eq!(members[1], member("type", Json::string("Note")));
        }
        _ => panic!("not an object"),
    }
}

#[test]
fn render_of_null_is_the_context_alone() {
    let rendered = ActivityStream::new(Json::Null).render().unwrap();
    assert_eq!(to_value(&rendered), object(vec![("@context", expected_context())]));
}

#[test]
fn render_of_a_property_bag() {
    let mut bag = PropertyBag::new();
    bag.insert("type".to_string(), Json::string("Person")).unwrap();
    let rendered = ActivityStream::new(bag).render().unwrap();
    assert_eq!(
        to_value(&rendered),
        object(vec![("type", text("Person")), ("@context", expected_context())])
    );
}

#[test]
fn render_refuses_what_has_no_place_for_a_context() {
    assert_eq!(
        ActivityStream::new(Json::Array(vec![])).render(),
        Err(SerializationError::WrongShape)
    );
    assert_eq!(
        ActivityStream::new(Json::string("text")).render(),
        Err(SerializationError::WrongShape)
    );
    assert_eq!(
        ActivityStream::new(Json::Bool(true)).render(),
        Err(SerializationError::WrongShape)
    );
    assert_eq!(
        ActivityStream::new(Json::Number("1".to_string())).render(),
        Err(SerializationError::WrongShape)
    );
    let twice = Json::Object(vec![member("a", Json::Null), member("a", Json::Null)]);
    assert_eq!(ActivityStream::new(twice).render(), Err(SerializationError::WrongShape));
}

#[test]
fn envelope_hands_its_entity_back() {
    assert_eq!(ActivityStream::new(7u8).into_inner(), 7u8);
}

#[test]
fn respond_to_gives_text_and_media_type() {
    let doc = Json::Object(vec![member("type", Json::string("Note"))]);
    let rendered = ActivityStream::new(doc).respond_to().unwrap();
    assert_eq!(rendered.content_type, "application/activity+json");
    let parsed: Value = serde_json::from_str(&rendered.body).unwrap();
    assert_eq!(parsed, object(vec![("type", text("Note")), ("@context", expected_context())]));
    assert!(rendered.body.starts_with("{\"type\":\"Note\",\"@context\":[\"https://www.w3.org"));
    assert_eq!(
        ActivityStream::new(Json::Bool(false)).respond_to(),
        Err(SerializationError::WrongShape)
    );
}

#[test]
fn text_of_values() {
    assert_eq!(to_text(&Json::Null), "null");
    assert_eq!(to_text(&Json::Bool(true)), "true");
    assert_eq!(to_text(&Json::Bool(false)), "false");
    assert_eq!(to_text(&Json::Number("-12.5e3".to_string())), "-12.5e3");
    assert_eq!(to_text(&Json::string("plain")), "\"plain\"");
    assert_eq!(to_text(&Json::Array(vec![])), "[]");
    assert_eq!(to_text(&Json::Object(vec![])), "{}");
    let doc = Json::Object(vec![
        member(
            "a",
            Json::Array(vec![
                Json::Number("1".to_string()),
                Json::Bool(true),
                Json::Null,
                Json::string("x"),
            ]),
        ),
        member("b", Json::Object(vec![member("c", Json::Array(vec![Json::Array(vec![])]))])),
    ]);
    assert_eq!(to_text(&doc), "{\"a\":[1,true,null,\"x\"],\"b\":{\"c\":[[]]}}");
}

#[test]
fn text_of_strings_is_escaped() {
    assert_eq!(to_text(&Json::string("a\"b")), "\"a\\\"b\"");
    assert_eq!(to_text(&Json::string("back\\slash")), "\"back\\\\slash\"");
    assert_eq!(to_text(&Json::string("line\nbreak\ttab")), "\"line\\nbreak\\ttab\"");
    assert_eq!(to_text(&Json::string("\u{1}")), "\"\\u0001\"");
    assert_eq!(to_text(&Json::string("é")), "\"é\"");
    let doc = Json::Object(vec![member("q\"uote", Json::Null)]);
    assert_eq!(to_text(&doc), "{\"q\\\"uote\":null}");
}

#[test]
fn text_is_what_the_json_crate_writes() {
    let doc = Json::Object(vec![
        member("a", Json::string("x\ny \"z\"")),
        member("b", Json::Array(vec![Json::Number("3".to_string()), Json::Null])),
        member("c", Json::Object(vec![member("d", Json::Bool(false))])),
    ]);
    assert_eq!(to_text(&doc), serde_json::to_string(&to_value(&doc)).unwrap());
    let parsed: Value = serde_json::from_str(&to_text(&context())).unwrap();
    assert_eq!(parsed, expected_context());
}

#[test]
fn copy_of_a_value_is_equal() {
    let doc = Json::Object(vec![
        member("a", Json::Array(vec![Json::Number("1".to_string()), Json::string("x")])),
        member("b", Json::Null),
    ]);
    assert_eq!(doc.duplicate(), doc);
    assert_eq!(doc.member("b"), Some(&Json::Null));
    assert_eq!(doc.member("z"), None);
    assert_eq!(doc.string_member("a"), None);
    assert_eq!(Json::Null.member("a"), None);
    assert_eq!(Json::string("s").as_str(), Some("s"));
    assert_eq!(Json::Null.as_str(), None);
    assert_eq!(Json::array(vec![Json::Null]), Json::Array(vec![Json::Null]));
    assert_eq!(Json::object(vec![]), Json::Object(vec![]));
}
