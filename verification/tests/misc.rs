use activity_pub::{
    ap_accept_header, AnyBase, AnyString, ApRequest, ApSignature, Hashtag, HashtagType,
    HashtagType07, Id, IntoId, Iri, Json, Licensed, Member, Negotiation, OneOrMany, PropertyBag,
    PropertyError, PublicKey, ToAsString, ToAsUri,
};

#[test]
fn accept_header_lists_the_protocol_media_types() {
    assert_eq!(
        ap_accept_header(),
        vec![
            "application/ld+json; profile=\"https://w3.org/ns/activitystreams\"",
            "application/ld+json;profile=\"https://w3.org/ns/activitystreams\"",
            "application/activity+json",
            "application/ld+json",
        ]
    );
}

#[test]
fn every_protocol_media_type_is_protocol() {
    for media_type in ap_accept_header() {
        assert_eq!(ApRequest::from_request(Some(media_type)), Negotiation::Protocol(ApRequest));
    }
}

#[test]
fn ranges_are_trimmed() {
    assert_eq!(
        ApRequest::from_request(Some("  application/ld+json \t")),
        Negotiation::Protocol(ApRequest)
    );
    assert_eq!(
        ApRequest::from_request(Some("application/xml , \u{a0}text/html\u{2003}")),
        Negotiation::PassThrough(true)
    );
    assert_eq!(
        ApRequest::from_request(Some("text/html, application/xml")),
        Negotiation::PassThrough(true)
    );
}

#[test]
fn later_protocol_range_wins_over_earlier_pass_through() {
    assert_eq!(
        ApRequest::from_request(Some("application/xml, text/html ,application/ld+json")),
        Negotiation::Protocol(ApRequest)
    );
    assert_eq!(
        ApRequest::from_request(Some("application/activity+json,text/html")),
        Negotiation::Protocol(ApRequest)
    );
}

#[test]
fn other_headers_pass_through_unknown() {
    assert_eq!(ApRequest::from_request(Some("")), Negotiation::PassThrough(false));
    assert_eq!(ApRequest::from_request(Some(",")), Negotiation::PassThrough(false));
    assert_eq!(ApRequest::from_request(Some("*/*")), Negotiation::PassThrough(false));
    assert_eq!(
        ApRequest::from_request(Some("application/activity+json; q=0.9")),
        Negotiation::PassThrough(false)
    );
    assert_eq!(ApRequest::from_request(Some("text/htmlx")), Negotiation::PassThrough(false));
    assert_eq!(ApRequest::from_request(Some("TEXT/HTML")), Negotiation::PassThrough(false));
    assert_eq!(
        ApRequest::from_request(Some("text/html;application/activity+json")),
        Negotiation::PassThrough(false)
    );
}

#[test]
fn identifiers_are_compared_by_text() {
    let id = Id::new("https://example.com/users/alice");
    assert_eq!(id.as_str(), "https://example.com/users/alice");
    assert_eq!(id.as_ref(), "https://example.com/users/alice");
    assert_eq!(id.clone(), id);
    assert!(id.same_as(&Id::new("https://example.com/users/alice")));
    assert!(!id.same_as(&Id::new("https://example.com/users/bob")));
    assert_eq!(id.clone().into_id(), id);
    assert_eq!(id.into_string(), "https://example.com/users/alice");
}

#[test]
fn first_value_as_string() {
    let plain = AnyString::Plain("hello".to_string());
    let tagged = AnyString::Lang { value: "bonjour".to_string(), language: "fr".to_string() };
    assert_eq!(OneOrMany::One(&plain).to_as_string(), Some("hello".to_string()));
    assert_eq!(OneOrMany::One(&tagged).to_as_string(), Some("bonjour".to_string()));
    assert_eq!(OneOrMany::Many(vec![&tagged, &plain]).to_as_string(), Some("bonjour".to_string()));
    let none: OneOrMany<&AnyString> = OneOrMany::Many(vec![]);
    assert_eq!(none.to_as_string(), None);
}

#[test]
fn first_value_as_uri() {
    let iri = Iri::parse("https://example.com/a").unwrap();
    assert_eq!(
        OneOrMany::One(AnyBase::Iri(iri.duplicate())).to_as_uri(),
        Some("https://example.com/a".to_string())
    );
    assert_eq!(OneOrMany::One(AnyBase::Text("https://example.com/a".to_string())).to_as_uri(), None);
    assert_eq!(OneOrMany::One(AnyBase::Base(PropertyBag::new())).to_as_uri(), None);
    assert_eq!(
        OneOrMany::Many(vec![AnyBase::Text("x".to_string()), AnyBase::Iri(iri)]).to_as_uri(),
        None
    );
    let none: OneOrMany<AnyBase> = OneOrMany::Many(vec![]);
    assert_eq!(none.to_as_uri(), None);
    assert_eq!(none.first(), None);
}

#[test]
fn kinds_of_hashtag() {
    assert_eq!(HashtagType.as_str(), "Hashtag");
    assert_eq!(HashtagType07::default(), HashtagType07::Hashtag);
    assert_eq!(HashtagType07::Hashtag.as_str(), "Hashtag");
    assert_eq!(Hashtag::default().kind(), HashtagType);
}

#[test]
fn properties_of_the_older_structs() {
    let mut licensed = Licensed::default();
    assert_eq!(licensed.license_string(), Err(PropertyError::NotFound));
    licensed.set_license_string("CC-0".to_string());
    assert_eq!(licensed.license_string(), Ok("CC-0".to_string()));
    licensed.license = Some(Json::Bool(true));
    assert_eq!(licensed.license_string(), Err(PropertyError::Deserialize));

    let mut tag = Hashtag::default();
    assert_eq!(tag.href_string(), Err(PropertyError::NotFound));
    tag.set_href_string("https://example.com/tag/a".to_string());
    tag.set_name_string("#a".to_string());
    assert_eq!(tag.href_string(), Ok("https://example.com/tag/a".to_string()));
    assert_eq!(tag.name_string(), Ok("#a".to_string()));

    let mut key = PublicKey::default();
    assert_eq!(key.id_string(), Err(PropertyError::NotFound));
    key.set_id_string("https://example.com/key".to_string());
    key.set_owner_string("https://example.com/owner".to_string());
    assert_eq!(key.public_key_pem_string(), Err(PropertyError::NotFound));
    assert_eq!(key.id_string(), Ok("https://example.com/key".to_string()));
    assert_eq!(key.owner_string(), Ok("https://example.com/owner".to_string()));

    let mut signature = ApSignature::default();
    assert_eq!(signature.public_key_publickey(), Err(PropertyError::NotFound));
    signature.set_public_key_publickey(key);
    assert_eq!(
        signature.public_key,
        Some(Json::Object(vec![
            Member { name: "id".to_string(), value: Json::string("https://example.com/key") },
            Member { name: "owner".to_string(), value: Json::string("https://example.com/owner") },
            Member { name: "publicKeyPem".to_string(), value: Json::Null },
        ]))
    );
    let read = signature.public_key_publickey().unwrap();
    assert_eq!(read.id_string(), Ok("https://example.com/key".to_string()));
    assert_eq!(read.public_key_pem, None);
    let mut other = PublicKey::default();
    other.set_public_key_pem_string("pem".to_string());
    assert_eq!(other.public_key_pem_string(), Ok("pem".to_string()));
    signature.public_key = Some(Json::string("no object"));
    assert_eq!(signature.public_key_publickey(), Err(PropertyError::Deserialize));
}

#[test]
fn white_space_is_what_the_language_trims() {
    let mut c = 0u32;
    while c <= 0x10FFFF {
        if let Some(ch) = char::from_u32(c) {
            assert_eq!(activity_pub::text::is_whitespace(ch), ch.is_whitespace(), "{:x}", c);
        }
        c += 1;
    }
}

#[test]
fn trimming_and_comparing_strings() {
    for sample in ["", " ", "a", "  a b \t", "\u{a0}x\u{3000}", "\n\n", "é "] {
        let chars = activity_pub::text::chars_of(sample);
        assert_eq!(chars, sample.chars().collect::<Vec<char>>());
        let (from, to) = activity_pub::text::trim_bounds(&chars, 0, chars.len());
        let trimmed: String = chars[from..to].iter().collect();
        assert_eq!(trimmed, sample.trim());
        let word: Vec<char> = sample.trim().chars().collect();
        assert!(activity_pub::text::range_equals(&chars, from, to, &word));
        assert_eq!(activity_pub::text::to_lowercase(sample), sample.to_ascii_lowercase());
    }
    assert!(activity_pub::text::str_equal("abc", "abc"));
    assert!(!activity_pub::text::str_equal("abc", "abd"));
    assert!(!activity_pub::text::str_equal("abc", "ab"));
    let chars = activity_pub::text::chars_of("abc");
    assert!(!activity_pub::text::range_equals(&chars, 0, 2, &chars));
}
