use activity_pub::base64::encode;
use activity_pub::broadcast::{
    broadcast_to, destinations, digest_header, dispatch, transport_defaults, RecipientModel,
};
use activity_pub::render::to_text;
use activity_pub::sign::{names_signed, origin, signature, signature_header, string_to_sign};
use activity_pub::text::{join, to_lowercase};
use activity_pub::{
    broadcast, broadcast07, ActivityStream, BodyDigest, BroadcastError, DeliveryTarget,
    DestinationError, Header, Json, Member, Recipient, RequestTarget, SerializationError,
    SignatureError, Signer, Skipped, UrlParts,
};

use vstd::seq::Seq;

struct Actor {
    local: bool,
    inbox: &'static str,
    shared: Option<&'static str>,
}

impl DeliveryTarget for Actor {
    fn recipient(&self) -> RecipientModel {
        unreachable!("a specification function is never run")
    }

    fn is_local(&self) -> bool {
        self.local
    }

    fn inbox_url(&self) -> String {
        self.inbox.to_string()
    }

    fn shared_inbox_url(&self) -> Option<String> {
        self.shared.map(String::from)
    }
}

/// A signer without secrets: the signature of a string is the string, each
/// byte moved on by the length of the key's name.
struct TestSigner {
    key_id: &'static str,
}

impl TestSigner {
    fn shifted(&self, data: &str) -> Vec<u8> {
        data.bytes().map(|b| b.wrapping_add(self.key_id.len() as u8)).collect()
    }
}

impl Signer for TestSigner {
    fn names_key(&self, _id: Seq<char>) -> bool {
        unreachable!("a specification function is never run")
    }

    fn answers(&self, _data: Seq<char>, _answer: Result<Seq<u8>, SignatureError>) -> bool {
        unreachable!("a specification function is never run")
    }

    fn get_key_id(&self) -> String {
        self.key_id.to_string()
    }

    fn sign(&self, to_sign: &str) -> Result<Vec<u8>, SignatureError> {
        Ok(self.shifted(to_sign))
    }

    fn verify(&self, data: &str, signature: &Vec<u8>) -> Result<bool, SignatureError> {
        Ok(self.shifted(data) == *signature)
    }
}

struct Refusing;

impl Signer for Refusing {
    fn names_key(&self, _id: Seq<char>) -> bool {
        unreachable!("a specification function is never run")
    }

    fn answers(&self, _data: Seq<char>, _answer: Result<Seq<u8>, SignatureError>) -> bool {
        unreachable!("a specification function is never run")
    }

    fn get_key_id(&self) -> String {
        "https://example.com/key".to_string()
    }

    fn sign(&self, _to_sign: &str) -> Result<Vec<u8>, SignatureError> {
        Err(SignatureError)
    }

    fn verify(&self, _data: &str, _signature: &Vec<u8>) -> Result<bool, SignatureError> {
        Err(SignatureError)
    }
}

struct FixedDigest;

impl BodyDigest for FixedDigest {
    fn algorithm_name(&self) -> Seq<char> {
        unreachable!("a specification function is never run")
    }

    fn hash_of(&self, _body: Seq<char>) -> Seq<u8> {
        unreachable!("a specification function is never run")
    }

    fn algorithm(&self) -> String {
        "LEN".to_string()
    }

    fn hash(&self, body: &str) -> Vec<u8> {
        vec![body.len() as u8]
    }
}

fn header(name: &str, value: &str) -> Header {
    Header { name: name.to_string(), value: value.to_string() }
}

fn recipient(local: bool, inbox: &str, shared: Option<&str>) -> Recipient {
    Recipient { local, inbox: inbox.to_string(), shared_inbox: shared.map(String::from) }
}

fn note() -> Json {
    Json::Object(vec![Member { name: "type".to_string(), value: Json::string("Note") }])
}

#[test]
fn shared_inbox_is_one_destination() {
    let recipients = vec![
        recipient(false, "https://a.example/users/1/inbox", Some("https://a.example/inbox")),
        recipient(false, "https://a.example/users/2/inbox", Some("https://a.example/inbox")),
    ];
    assert_eq!(destinations(&recipients), vec!["https://a.example/inbox"]);
}

#[test]
fn local_recipients_are_no_destinations() {
    let recipients = vec![
        recipient(true, "https://here.example/users/1/inbox", None),
        recipient(false, "https://b.example/users/2/inbox", None),
        recipient(true, "https://here.example/users/3/inbox", Some("https://here.example/inbox")),
    ];
    assert_eq!(destinations(&recipients), vec!["https://b.example/users/2/inbox"]);
    assert_eq!(destinations(&vec![recipient(true, "https://here.example/inbox", None)]).len(), 0);
    assert_eq!(destinations(&vec![]).len(), 0);
}

#[test]
fn destinations_keep_the_order_of_first_occurrence() {
    let recipients = vec![
        recipient(false, "https://c.example/inbox", None),
        recipient(false, "https://a.example/u/1", Some("https://a.example/inbox")),
        recipient(false, "https://c.example/inbox", None),
        recipient(false, "https://b.example/inbox", None),
        recipient(false, "https://a.example/inbox", None),
    ];
    assert_eq!(
        destinations(&recipients),
        vec!["https://c.example/inbox", "https://a.example/inbox", "https://b.example/inbox"]
    );
}

#[test]
fn target_of_a_url() {
    assert_eq!(
        RequestTarget::resolve("https://example.com/inbox?a=1&b=2"),
        Ok(RequestTarget {
            host: "example.com".to_string(),
            path: "/inbox".to_string(),
            query: Some("a=1&b=2".to_string()),
        })
    );
    assert_eq!(
        RequestTarget::resolve("https://EXAMPLE.com"),
        Ok(RequestTarget { host: "example.com".to_string(), path: "/".to_string(), query: None })
    );
    assert_eq!(RequestTarget::resolve("not a url"), Err(DestinationError::InvalidUrl));
    assert_eq!(RequestTarget::resolve(""), Err(DestinationError::InvalidUrl));
    assert_eq!(
        RequestTarget::resolve("mailto:someone@example.com"),
        Err(DestinationError::NoHost)
    );
}

#[test]
fn target_of_parsed_parts() {
    assert_eq!(RequestTarget::from_parts(None), Err(DestinationError::InvalidUrl));
    let no_host = UrlParts { host: None, path: "/x".to_string(), query: None };
    assert_eq!(RequestTarget::from_parts(Some(no_host)), Err(DestinationError::NoHost));
    let bad_host =
        UrlParts { host: Some("exa\nmple.com".to_string()), path: "/".to_string(), query: None };
    assert_eq!(RequestTarget::from_parts(Some(bad_host)), Err(DestinationError::InvalidHost));
    let delete = UrlParts { host: Some("a\u{7f}".to_string()), path: "/".to_string(), query: None };
    assert_eq!(RequestTarget::from_parts(Some(delete)), Err(DestinationError::InvalidHost));
    let tab = UrlParts { host: Some("a\tb é".to_string()), path: "/p".to_string(), query: None };
    assert_eq!(
        RequestTarget::from_parts(Some(tab)),
        Ok(RequestTarget { host: "a\tb é".to_string(), path: "/p".to_string(), query: None })
    );
}

#[test]
fn base64_of_known_bytes() {
    assert_eq!(encode(&vec![]), "");
    assert_eq!(encode(&b"f".to_vec()), "Zg==");
    assert_eq!(encode(&b"fo".to_vec()), "Zm8=");
    assert_eq!(encode(&b"foo".to_vec()), "Zm9v");
    assert_eq!(encode(&b"foob".to_vec()), "Zm9vYg==");
    assert_eq!(encode(&b"fooba".to_vec()), "Zm9vYmE=");
    assert_eq!(encode(&b"foobar".to_vec()), "Zm9vYmFy");
    assert_eq!(encode(&vec![0xfb, 0xff]), "+/8=");
    assert_eq!(encode(&vec![0, 0, 0]), "AAAA");
    assert_eq!(encode(&vec![255, 255, 255]), "////");
}

#[test]
fn digest_header_of_known_hash() {
    assert_eq!(digest_header("SHA-256", &b"foo".to_vec()), "SHA-256=Zm9v");
    assert_eq!(digest_header("SHA-256", &vec![]), "SHA-256=");
}

#[test]
fn lower_case_and_joining() {
    assert_eq!(to_lowercase("Content-Type"), "content-type");
    assert_eq!(to_lowercase("AZ az 09 É"), "az az 09 É");
    assert_eq!(join(&vec![], ", "), "");
    assert_eq!(join(&vec!["a".to_string()], ", "), "a");
    assert_eq!(join(&vec!["a".to_string(), "b".to_string(), "c".to_string()], ", "), "a, b, c");
    assert_eq!(origin("/inbox", None), "/inbox");
    assert_eq!(origin("/inbox", Some("a=1")), "/inbox?a=1");
}

#[test]
fn string_that_is_signed() {
    let headers = vec![header("Host", "example.com"), header("Digest", "SHA-256=abc")];
    assert_eq!(
        string_to_sign(&headers, "POST", "/inbox", Some("a=1")),
        "host: example.com\ndigest: SHA-256=abc\n(request-target): post /inbox?a=1"
    );
    assert_eq!(string_to_sign(&vec![], "get", "/", None), "(request-target): get /");
    assert_eq!(names_signed(&headers), "host digest (request-target)");
    assert_eq!(names_signed(&vec![]), "(request-target)");
}

#[test]
fn signature_header_of_known_signature() {
    let headers = vec![header("Host", "example.com"), header("Digest", "SHA-256=abc")];
    assert_eq!(
        signature_header("https://example.com/key", &headers, &b"foo".to_vec()),
        Ok("keyId=\"https://example.com/key\",algorithm=\"rsa-sha256\",headers=\"host digest (request-target)\",signature=\"Zm9v\"".to_string())
    );
    assert_eq!(signature_header("bad\nkey", &headers, &vec![]), Err(SignatureError));
}

#[test]
fn signature_is_stable_and_verifiable() {
    let signer = TestSigner { key_id: "https://example.com/actor#main-key" };
    let headers = vec![
        header("Date", "Tue, 07 Jun 2014 20:51:35 GMT"),
        header("Host", "example.com"),
        header("Digest", "SHA-256=X48E9qOokqqrvdts8nOJRJN3OWDUoyWxBf7kbu9DBPE="),
    ];
    let first = signature(&signer, &headers, ("post", "/inbox", Some("a=1"))).unwrap();
    let second = signature(&signer, &headers, ("post", "/inbox", Some("a=1"))).unwrap();
    assert_eq!(first, second);
    let signed = string_to_sign(&headers, "post", "/inbox", Some("a=1"));
    let made = signer.sign(&signed).unwrap();
    assert_eq!(signer.verify(&signed, &made), Ok(true));
    assert_eq!(signer.verify("another string", &made), Ok(false));
    assert_eq!(
        first,
        format!(
            "keyId=\"https://example.com/actor#main-key\",algorithm=\"rsa-sha256\",headers=\"date host digest (request-target)\",signature=\"{}\"",
            encode(&made)
        )
    );
    let other = signature(&signer, &headers, ("post", "/outbox", None)).unwrap();
    assert_ne!(first, other);
    assert_eq!(signature(&Refusing, &headers, ("post", "/inbox", None)), Err(SignatureError));
}

#[test]
fn malformed_destination_is_skipped_and_siblings_are_served() {
    let signer = TestSigner { key_id: "k" };
    let urls = vec![
        "https://a.example/inbox".to_string(),
        "not a url".to_string(),
        "mailto:nobody@example.com".to_string(),
        "https://b.example/shared?x=1".to_string(),
    ];
    let defaults = vec![header("User-Agent", "tests")];
    let out = dispatch(&signer, &urls, &defaults, "LEN=2", "{}").unwrap();
    assert_eq!(
        out.skipped,
        vec![
            Skipped { url: "not a url".to_string(), reason: DestinationError::InvalidUrl },
            Skipped { url: "mailto:nobody@example.com".to_string(), reason: DestinationError::NoHost },
        ]
    );
    assert_eq!(out.deliveries.len(), 2);
    assert_eq!(out.deliveries[0].url, "https://a.example/inbox");
    assert_eq!(out.deliveries[1].url, "https://b.example/shared?x=1");
    let first = &out.deliveries[0];
    assert_eq!(first.body, "{}");
    assert_eq!(first.headers.len(), 5);
    assert_eq!(first.headers[0], header("User-Agent", "tests"));
    assert_eq!(
        first.headers[1],
        header(
            "Content-Type",
            "application/ld+json; profile=\"https://www.w3.org/ns/activitystreams\""
        )
    );
    assert_eq!(first.headers[2], header("Host", "a.example"));
    assert_eq!(first.headers[3], header("Digest", "LEN=2"));
    assert_eq!(first.headers[4].name, "Signature");
    let signed = string_to_sign(&first.headers[..4].to_vec_of(), "post", "/inbox", None);
    assert_eq!(
        first.headers[4].value,
        signature_header("k", &first.headers[..4].to_vec_of(), &signer.sign(&signed).unwrap())
            .unwrap()
    );
    let second_signed =
        string_to_sign(&out.deliveries[1].headers[..4].to_vec_of(), "post", "/shared", Some("x=1"));
    assert!(second_signed.ends_with("(request-target): post /shared?x=1"));
    assert!(second_signed.contains("host: b.example\n"));
}

trait ToVecOf {
    fn to_vec_of(&self) -> Vec<Header>;
}

impl ToVecOf for [Header] {
    fn to_vec_of(&self) -> Vec<Header> {
        self.iter().map(|h| header(&h.name, &h.value)).collect()
    }
}

#[test]
fn refusing_signer_ends_the_dispatch_unless_nothing_is_signed() {
    let urls = vec!["not a url".to_string(), "https://a.example/inbox".to_string()];
    assert_eq!(dispatch(&Refusing, &urls, &vec![], "d", "{}"), Err(SignatureError));
    let unreachable = vec!["not a url".to_string()];
    let out = dispatch(&Refusing, &unreachable, &vec![], "d", "{}").unwrap();
    assert_eq!(out.deliveries.len(), 0);
    assert_eq!(out.skipped.len(), 1);
}

#[test]
fn broadcast_prepares_one_request_per_destination() {
    let signer = TestSigner { key_id: "https://here.example/key" };
    let to = vec![
        Actor { local: false, inbox: "https://a.example/u/1", shared: Some("https://a.example/inbox") },
        Actor { local: true, inbox: "https://here.example/u/9", shared: None },
        Actor { local: false, inbox: "https://a.example/u/2", shared: Some("https://a.example/inbox") },
        Actor { local: false, inbox: "not a url", shared: None },
        Actor { local: false, inbox: "https://b.example/u/3", shared: None },
    ];
    let defaults = transport_defaults("tests/1.0", "Tue, 07 Jun 2014 20:51:35 GMT");
    let out = broadcast(&signer, &FixedDigest, note(), to, &defaults).unwrap();
    let urls: Vec<&str> = out.deliveries.iter().map(|d| d.url.as_str()).collect();
    assert_eq!(urls, vec!["https://a.example/inbox", "https://b.example/u/3"]);
    assert_eq!(
        out.skipped,
        vec![Skipped { url: "not a url".to_string(), reason: DestinationError::InvalidUrl }]
    );
    let body = to_text(&ActivityStream::new(note()).render().unwrap());
    for delivery in &out.deliveries {
        assert_eq!(delivery.body, body);
        assert_eq!(delivery.headers.len(), 7);
        assert_eq!(
            delivery.headers[5],
            header("Digest", &format!("LEN={}", encode(&vec![body.len() as u8])))
        );
        assert_eq!(delivery.headers[6].name, "Signature");
    }
    assert_eq!(out.deliveries[0].headers[4], header("Host", "a.example"));
    assert_eq!(out.deliveries[1].headers[4], header("Host", "b.example"));
}

#[test]
fn broadcast_fails_as_a_whole() {
    let to = vec![Actor { local: false, inbox: "https://a.example/inbox", shared: None }];
    assert_eq!(
        broadcast(&Refusing, &FixedDigest, note(), to, &vec![]),
        Err(BroadcastError::Signature)
    );
    let signer = TestSigner { key_id: "k" };
    let to = vec![Actor { local: false, inbox: "https://a.example/inbox", shared: None }];
    assert_eq!(
        broadcast(&signer, &FixedDigest, Json::Array(vec![]), to, &vec![]),
        Err(BroadcastError::Serialization(SerializationError::WrongShape))
    );
    let nobody: Vec<Actor> = vec![];
    let out = broadcast(&Refusing, &FixedDigest, note(), nobody, &vec![]).unwrap();
    assert_eq!(out.deliveries.len(), 0);
    assert_eq!(out.skipped.len(), 0);
}

#[test]
fn broadcast07_goes_where_broadcast_goes() {
    let signer = TestSigner { key_id: "k" };
    let actors = || {
        vec![
            Actor { local: true, inbox: "https://here.example/u/1", shared: None },
            Actor { local: false, inbox: "https://a.example/u/2", shared: None },
        ]
    };
    let one = broadcast(&signer, &FixedDigest, note(), actors(), &vec![]).unwrap();
    let other = broadcast07(&signer, &FixedDigest, note(), actors(), &vec![]).unwrap();
    assert_eq!(one, other);
    assert_eq!(one.deliveries.len(), 1);
    assert_eq!(one.deliveries[0].url, "https://a.example/u/2");
}

#[test]
fn broadcast_to_recipients_that_were_asked() {
    let signer = TestSigner { key_id: "k" };
    let recipients = vec![recipient(false, "https://a.example/inbox", None)];
    let out = broadcast_to(&signer, &FixedDigest, note(), &recipients, &vec![]).unwrap();
    assert_eq!(out.deliveries.len(), 1);
    assert_eq!(out.deliveries[0].headers[1], header("Host", "a.example"));
}

#[test]
fn defaults_of_the_transport() {
    assert_eq!(
        transport_defaults("agent", "now"),
        vec![
            header("User-Agent", "agent"),
            header("Date", "now"),
            header(
                "Accept",
                "application/ld+json; profile=\"https://w3.org/ns/activitystreams\", application/ld+json;profile=\"https://w3.org/ns/activitystreams\", application/activity+json, application/ld+json"
            ),
        ]
    );
}

fn asked(local: bool, inbox: &str, shared: Option<&str>) -> Recipient {
    recipient(local, inbox, shared)
}

fn urls_of(out: &activity_pub::Dispatch) -> Vec<&str> {
    out.deliveries.iter().map(|d| d.url.as_str()).collect()
}

#[test]
fn broadcast_to_one_shared_inbox_is_one_request() {
    let signer = TestSigner { key_id: "k" };
    let to = || {
        vec![
            asked(false, "https://a.example/u/1/inbox", Some("https://a.example/inbox")),
            asked(false, "https://a.example/u/2/inbox", Some("https://a.example/inbox")),
        ]
    };
    let out = broadcast(&signer, &FixedDigest, note(), to(), &vec![]).unwrap();
    assert_eq!(urls_of(&out), vec!["https://a.example/inbox"]);
    let out = broadcast07(&signer, &FixedDigest, note(), to(), &vec![]).unwrap();
    assert_eq!(urls_of(&out), vec!["https://a.example/inbox"]);
}

#[test]
fn broadcast_to_shared_inboxes_of_two_servers_is_two_requests() {
    let signer = TestSigner { key_id: "k" };
    let to = vec![
        asked(false, "https://a.example/u/1", Some("https://a.example/inbox")),
        asked(false, "https://b.example/u/2", Some("https://b.example/inbox")),
        asked(false, "https://a.example/u/3", Some("https://a.example/inbox")),
    ];
    let out = broadcast(&signer, &FixedDigest, note(), to, &vec![]).unwrap();
    assert_eq!(urls_of(&out), vec!["https://a.example/inbox", "https://b.example/inbox"]);
}

#[test]
fn broadcast_passes_local_recipients_by() {
    let signer = TestSigner { key_id: "k" };
    let to = vec![
        asked(true, "https://here.example/in", None),
        asked(false, "https://far.example/in", None),
    ];
    let out = broadcast(&signer, &FixedDigest, note(), to, &vec![]).unwrap();
    assert_eq!(urls_of(&out), vec!["https://far.example/in"]);
    assert_eq!(out.skipped.len(), 0);
    let only_local = vec![asked(true, "https://here.example/in", None)];
    let out = broadcast07(&Refusing, &FixedDigest, note(), only_local, &vec![]).unwrap();
    assert_eq!(out.deliveries.len(), 0);
    assert_eq!(out.skipped.len(), 0);
}

#[test]
fn broadcast_skips_what_is_no_url_or_has_no_host() {
    let signer = TestSigner { key_id: "k" };
    let to = vec![
        asked(false, "not a url", None),
        asked(false, "https://ok.example/inbox", None),
        asked(false, "mailto:a@b.example", None),
    ];
    let out = broadcast(&signer, &FixedDigest, note(), to, &vec![]).unwrap();
    assert_eq!(urls_of(&out), vec!["https://ok.example/inbox"]);
    assert_eq!(
        out.skipped,
        vec![
            Skipped { url: "not a url".to_string(), reason: DestinationError::InvalidUrl },
            Skipped { url: "mailto:a@b.example".to_string(), reason: DestinationError::NoHost },
        ]
    );
}

#[test]
fn broadcast_twice_gives_the_same_requests() {
    let signer = TestSigner { key_id: "https://here.example/key" };
    let to = || vec![asked(false, "https://a.example/inbox?x=1", None)];
    let defaults = transport_defaults("tests/1.0", "Tue, 07 Jun 2014 20:51:35 GMT");
    let one = broadcast(&signer, &FixedDigest, note(), to(), &defaults).unwrap();
    let other = broadcast(&signer, &FixedDigest, note(), to(), &defaults).unwrap();
    assert_eq!(one, other);
    let delivery = &one.deliveries[0];
    let signed = string_to_sign(&delivery.headers[..6].to_vec_of(), "post", "/inbox", Some("x=1"));
    assert_eq!(
        delivery.headers[6].value,
        signature_header(
            "https://here.example/key",
            &delivery.headers[..6].to_vec_of(),
            &signer.sign(&signed).unwrap()
        )
        .unwrap()
    );
    assert_eq!(signer.verify(&signed, &signer.sign(&signed).unwrap()), Ok(true));
    assert_eq!(delivery.headers[4], header("Host", "a.example"));
    assert_eq!(
        delivery.headers[5],
        header("Digest", &digest_header("LEN", &vec![delivery.body.len() as u8]))
    );
}

#[test]
fn recipient_says_what_it_holds() {
    let target = asked(false, "https://a.example/u/1", Some("https://a.example/inbox"));
    assert!(!target.is_local());
    assert_eq!(target.inbox_url(), "https://a.example/u/1");
    assert_eq!(target.shared_inbox_url(), Some("https://a.example/inbox".to_string()));
    assert_eq!(asked(true, "x", None).shared_inbox_url(), None);
}
