//! Broadcasting an activity: the destinations it goes to, and the signed
//! requests that carry it there. Sending the requests is left to the caller.
//!
//! What is signed is the request: its headers and its request line. The
//! document goes out as the envelope renders it and carries no signature of
//! its own.

use crate::bag::SerializationError;
use crate::base64::{base64, encode};
use crate::context::{enveloped, ActivityStream, IntoJson, AP_CONTENT_TYPE};
use crate::json::JsonValue;
use crate::negotiate::{accept_media_types, ap_accept_header};
use crate::render::{json_text, to_text};
use crate::sign::{
    headers_view, is_refused_by, is_signed_by, signature, Header, SignatureError, Signer,
};
use crate::target::{is_header_value, target_of, url_parts, DestinationError, RequestTarget};
use crate::text::{join, joined, strings_view, text_view, texts};
use vstd::prelude::*;
use vstd::string::*;

verus! {

/// Someone an activity can be delivered to. What a target says of itself
/// is a matter of the target alone: asked again, it says the same.
pub trait DeliveryTarget {
    /// What the target says of itself.
    spec fn recipient(&self) -> RecipientModel;

    /// Whether the target lives on this server.
    fn is_local(&self) -> (local: bool)
        ensures
            local == self.recipient().local,
    ;

    /// The inbox of the target itself.
    fn inbox_url(&self) -> (url: String)
        ensures
            url@ == self.recipient().inbox,
    ;

    /// The inbox that the target shares with the others of its server.
    fn shared_inbox_url(&self) -> (url: Option<String>)
        ensures
            text_view(url) == self.recipient().shared_inbox,
    ;
}

/// What the targets say of themselves, in their order.
pub open spec fn said<T: DeliveryTarget>(to: Seq<T>) -> Seq<RecipientModel> {
    Seq::new(to.len(), |i: int| to[i].recipient())
}

/// The hash function behind the digest of a request body. Which function it
/// is stays with the one that brings it; the same body has the same hash.
pub trait BodyDigest {
    /// The name of the algorithm.
    spec fn algorithm_name(&self) -> Seq<char>;

    /// The hash of a body.
    spec fn hash_of(&self, body: Seq<char>) -> Seq<u8>;

    /// The name of the algorithm, as it stands in the `Digest` header.
    fn algorithm(&self) -> (name: String)
        ensures
            name@ == self.algorithm_name(),
    ;

    /// The hash of `body`.
    fn hash(&self, body: &str) -> (hash: Vec<u8>)
        ensures
            hash@ == self.hash_of(body@),
    ;
}

/// The value of the `Digest` header: the name of the algorithm, `=`, and the
/// hash in Base64.
pub open spec fn digest_value(algorithm: Seq<char>, hash: Seq<u8>) -> Seq<char> {
    algorithm + "="@ + base64(hash)
}

/// The value of the `Digest` header that a hash function gives for a body.
pub open spec fn digest_of<D: BodyDigest>(digester: &D, body: Seq<char>) -> Seq<char> {
    digest_value(digester.algorithm_name(), digester.hash_of(body))
}

/// The value of the `Digest` header for a hash that has been made.
pub fn digest_header(algorithm: &str, hash: &Vec<u8>) -> (out: String)
    ensures
        out@ == digest_value(algorithm@, hash@),
{
    let mut out = algorithm.to_owned();
    out.append("=");
    out.append(encode(hash).as_str());
    out
}

/// What a delivery target said of itself.
#[derive(Debug, PartialEq, Eq)]
pub struct Recipient {
    pub local: bool,
    pub inbox: String,
    pub shared_inbox: Option<String>,
}

/// The model of a `Recipient`.
pub struct RecipientModel {
    pub local: bool,
    pub inbox: Seq<char>,
    pub shared_inbox: Option<Seq<char>>,
}

impl View for Recipient {
    type V = RecipientModel;

    open spec fn view(&self) -> RecipientModel {
        RecipientModel {
            local: self.local,
            inbox: self.inbox@,
            shared_inbox: text_view(self.shared_inbox),
        }
    }
}

impl DeliveryTarget for Recipient {
    open spec fn recipient(&self) -> RecipientModel {
        self@
    }

    fn is_local(&self) -> (local: bool) {
        self.local
    }

    fn inbox_url(&self) -> (url: String) {
        self.inbox.clone()
    }

    fn shared_inbox_url(&self) -> (url: Option<String>) {
        match &self.shared_inbox {
            Some(shared) => Some(shared.clone()),
            None => None,
        }
    }
}

/// The views of a list of recipients.
pub open spec fn recipients_view(recipients: Seq<Recipient>) -> Seq<RecipientModel> {
    Seq::new(recipients.len(), |i: int| recipients[i]@)
}

/// Where a recipient is delivered to: its shared inbox if it has one, else
/// its own inbox.
pub open spec fn destination(recipient: RecipientModel) -> Seq<char> {
    match recipient.shared_inbox {
        Some(shared) => shared,
        None => recipient.inbox,
    }
}

/// The destinations of the recipients that are not local, in order.
pub open spec fn remote_destinations(recipients: Seq<RecipientModel>) -> Seq<Seq<char>>
    decreases recipients.len(),
{
    if recipients.len() == 0 {
        Seq::empty()
    } else {
        let before = remote_destinations(recipients.drop_last());
        if recipients.last().local {
            before
        } else {
            before.push(destination(recipients.last()))
        }
    }
}

/// The URLs in the order in which each occurs first.
pub open spec fn first_occurrences(urls: Seq<Seq<char>>) -> Seq<Seq<char>>
    decreases urls.len(),
{
    if urls.len() == 0 {
        Seq::empty()
    } else {
        let before = first_occurrences(urls.drop_last());
        if before.contains(urls.last()) {
            before
        } else {
            before.push(urls.last())
        }
    }
}

/// The destinations of one broadcast: those of the recipients that are not
/// local, each one once.
pub open spec fn destination_set(recipients: Seq<RecipientModel>) -> Seq<Seq<char>> {
    first_occurrences(remote_destinations(recipients))
}

/// `array_tool::vec::Uniq::unique` on a vector of strings: it takes out of a
/// copy every item that is equal to an earlier one, so that what stays are
/// the first occurrences, in their order.
#[verifier::external_body]
fn unique(urls: &Vec<String>) -> (out: Vec<String>)
    ensures
        strings_view(out@) == first_occurrences(strings_view(urls@)),
{
    array_tool::vec::Uniq::unique(urls)
}

/// What occurs among the first occurrences is what occurs at all, and nothing
/// occurs twice among them.
pub proof fn lemma_first_occurrences(urls: Seq<Seq<char>>)
    ensures
        forall|u: Seq<char>|
            #![trigger first_occurrences(urls).contains(u)]
            #![trigger urls.contains(u)]
            first_occurrences(urls).contains(u) <==> urls.contains(u),
        forall|a: int, b: int|
            0 <= a < b < first_occurrences(urls).len() ==> first_occurrences(urls)[a]
                != first_occurrences(urls)[b],
    decreases urls.len(),
{
    let out = first_occurrences(urls);
    if urls.len() > 0 {
        let init = urls.drop_last();
        let before = first_occurrences(init);
        lemma_first_occurrences(init);
        assert forall|u: Seq<char>| out.contains(u) <==> urls.contains(u) by {
            if out.contains(u) {
                let k = choose|k: int| 0 <= k < out.len() && out[k] == u;
                if k < before.len() {
                    assert(before[k] == u);
                    assert(before.contains(u));
                    let j = choose|j: int| 0 <= j < init.len() && init[j] == u;
                    assert(urls[j] == u);
                } else {
                    assert(urls[urls.len() - 1] == u);
                }
            }
            if urls.contains(u) {
                let j = choose|j: int| 0 <= j < urls.len() && urls[j] == u;
                if j < init.len() {
                    assert(init[j] == u);
                    assert(init.contains(u));
                    let k = choose|k: int| 0 <= k < before.len() && before[k] == u;
                    assert(out[k] == u);
                } else if before.contains(u) {
                } else {
                    assert(out[before.len() as int] == u);
                }
            }
        }
        assert forall|a: int, b: int| 0 <= a < b < out.len() implies out[a] != out[b] by {
            if b == before.len() {
                assert(before[a] == out[a]);
                assert(before.contains(out[a]));
            }
        }
    }
}

/// A URL is among the remote destinations where it is the destination of a
/// recipient that is not local, and only there.
pub proof fn lemma_remote_destinations(recipients: Seq<RecipientModel>)
    ensures
        forall|u: Seq<char>|
            #![trigger remote_destinations(recipients).contains(u)]
            remote_destinations(recipients).contains(u) <==> exists|k: int|
                0 <= k < recipients.len() && !recipients[k].local && destination(
                    #[trigger] recipients[k],
                ) == u,
    decreases recipients.len(),
{
    let out = remote_destinations(recipients);
    if recipients.len() > 0 {
        let init = recipients.drop_last();
        let before = remote_destinations(init);
        let n = recipients.len() - 1;
        lemma_remote_destinations(init);
        assert forall|u: Seq<char>|
            out.contains(u) <==> exists|k: int|
                0 <= k < recipients.len() && !recipients[k].local && destination(
                    #[trigger] recipients[k],
                ) == u by {
            if out.contains(u) {
                let i = choose|i: int| 0 <= i < out.len() && out[i] == u;
                if i < before.len() {
                    assert(before[i] == u);
                    assert(before.contains(u));
                    let k = choose|k: int|
                        0 <= k < init.len() && !init[k].local && destination(#[trigger] init[k]) == u;
                    assert(!recipients[k].local && destination(recipients[k]) == u);
                } else {
                    assert(!recipients[n].local && destination(recipients[n]) == u);
                }
            }
            if exists|k: int|
                0 <= k < recipients.len() && !recipients[k].local && destination(
                    #[trigger] recipients[k],
                ) == u {
                let k = choose|k: int|
                    0 <= k < recipients.len() && !recipients[k].local && destination(
                        #[trigger] recipients[k],
                    ) == u;
                if k < n {
                    assert(!init[k].local && destination(init[k]) == u);
                    assert(before.contains(u));
                    let i = choose|i: int| 0 <= i < before.len() && before[i] == u;
                    assert(out[i] == u);
                } else {
                    assert(out[before.len() as int] == u);
                }
            }
        }
    }
}

/// However many recipients share a destination, the destination set holds it
/// once.
pub proof fn lemma_destinations_distinct(recipients: Seq<RecipientModel>)
    ensures
        forall|a: int, b: int|
            0 <= a < b < destination_set(recipients).len() ==> destination_set(recipients)[a]
                != destination_set(recipients)[b],
{
    lemma_first_occurrences(remote_destinations(recipients));
}

/// The destination set holds the destination of every recipient that is not
/// local, and no URL on account of a local recipient.
pub proof fn lemma_destinations_remote(recipients: Seq<RecipientModel>)
    ensures
        forall|u: Seq<char>|
            #![trigger destination_set(recipients).contains(u)]
            destination_set(recipients).contains(u) <==> exists|k: int|
                0 <= k < recipients.len() && !recipients[k].local && destination(
                    #[trigger] recipients[k],
                ) == u,
{
    lemma_first_occurrences(remote_destinations(recipients));
    lemma_remote_destinations(recipients);
}

/// Asks each target for what a delivery needs to know of it.
pub fn recipients_of<T: DeliveryTarget>(to: &Vec<T>) -> (recipients: Vec<Recipient>)
    ensures
        recipients_view(recipients@) == said(to@),
{
    let mut recipients: Vec<Recipient> = Vec::new();
    let mut i: usize = 0;
    while i < to.len()
        invariant
            i <= to.len(),
            recipients@.len() == i,
            forall|k: int| 0 <= k < i ==> (#[trigger] recipients@[k])@ == to@[k].recipient(),
        decreases to.len() - i,
    {
        let target = &to[i];
        recipients.push(
            Recipient {
                local: target.is_local(),
                inbox: target.inbox_url(),
                shared_inbox: target.shared_inbox_url(),
            },
        );
        i += 1;
    }
    assert(recipients_view(recipients@) =~= said(to@));
    recipients
}

/// The destinations of one broadcast.
pub fn destinations(recipients: &Vec<Recipient>) -> (urls: Vec<String>)
    ensures
        strings_view(urls@) == destination_set(recipients_view(recipients@)),
{
    let ghost all = recipients_view(recipients@);
    let mut boxes: Vec<String> = Vec::new();
    let mut i: usize = 0;
    while i < recipients.len()
        invariant
            i <= recipients.len(),
            all == recipients_view(recipients@),
            strings_view(boxes@) == remote_destinations(all.take(i as int)),
        decreases recipients.len() - i,
    {
        let ghost before = boxes@;
        let recipient = &recipients[i];
        proof {
            assert(all.take(i + 1).drop_last() =~= all.take(i as int));
            assert(all.take(i + 1).last() == recipient@);
        }
        if !recipient.local {
            let url = match &recipient.shared_inbox {
                Some(shared) => shared.clone(),
                None => recipient.inbox.clone(),
            };
            boxes.push(url);
            assert(strings_view(boxes@) =~= strings_view(before).push(destination(recipient@)));
        }
        i += 1;
    }
    assert(all.take(recipients.len() as int) =~= all);
    unique(&boxes)
}

/// A request that is ready to be sent.
#[derive(Debug, PartialEq, Eq)]
pub struct Delivery {
    /// The destination.
    pub url: String,
    /// The headers, the signature last.
    pub headers: Vec<Header>,
    /// The text of the document.
    pub body: String,
}

/// The model of a `Delivery`.
pub struct DeliveryModel {
    pub url: Seq<char>,
    pub headers: Seq<(Seq<char>, Seq<char>)>,
    pub body: Seq<char>,
}

impl View for Delivery {
    type V = DeliveryModel;

    open spec fn view(&self) -> DeliveryModel {
        DeliveryModel { url: self.url@, headers: headers_view(self.headers@), body: self.body@ }
    }
}

/// A destination that nothing is sent to, and why.
#[derive(Debug, PartialEq, Eq)]
pub struct Skipped {
    pub url: String,
    pub reason: DestinationError,
}

impl View for Skipped {
    type V = (Seq<char>, DestinationError);

    open spec fn view(&self) -> (Seq<char>, DestinationError) {
        (self.url@, self.reason)
    }
}

/// What one broadcast comes to: the requests to send, and the destinations
/// that were passed over.
#[derive(Debug, PartialEq, Eq)]
pub struct Dispatch {
    pub deliveries: Vec<Delivery>,
    pub skipped: Vec<Skipped>,
}

/// Why a broadcast came to nothing.
#[derive(Clone, Copy, Debug, PartialEq, Eq, Structural)]
pub enum BroadcastError {
    /// The activity has no document.
    Serialization(SerializationError),
    /// A request could not be signed.
    Signature,
}

/// The views of a list of skipped destinations.
pub open spec fn skipped_view(skipped: Seq<Skipped>) -> Seq<(Seq<char>, DestinationError)> {
    Seq::new(skipped.len(), |i: int| skipped[i]@)
}

/// Whether a request can be made for a destination.
pub open spec fn is_reachable(url: Seq<char>) -> bool {
    target_of(url_parts(url)) is Ok
}

/// The destinations for which a request can be made, in order.
pub open spec fn reachable(urls: Seq<Seq<char>>) -> Seq<Seq<char>>
    decreases urls.len(),
{
    if urls.len() == 0 {
        Seq::empty()
    } else if is_reachable(urls.last()) {
        reachable(urls.drop_last()).push(urls.last())
    } else {
        reachable(urls.drop_last())
    }
}

/// The destinations for which no request can be made, in order, each with
/// the reason.
pub open spec fn unreachable(urls: Seq<Seq<char>>) -> Seq<(Seq<char>, DestinationError)>
    decreases urls.len(),
{
    if urls.len() == 0 {
        Seq::empty()
    } else {
        match target_of(url_parts(urls.last())) {
            Ok(_) => unreachable(urls.drop_last()),
            Err(reason) => unreachable(urls.drop_last()).push((urls.last(), reason)),
        }
    }
}

/// What a sequence with one more item holds: what it held, and the item.
proof fn lemma_push_contains<A>(s: Seq<A>, x: A, u: A)
    ensures
        s.push(x).contains(u) <==> (s.contains(u) || u == x),
{
    let t = s.push(x);
    if s.contains(u) {
        let i = choose|i: int| 0 <= i < s.len() && s[i] == u;
        assert(t[i] == u);
    }
    if u == x {
        assert(t[s.len() as int] == u);
    }
    if t.contains(u) {
        let i = choose|i: int| 0 <= i < t.len() && t[i] == u;
        if i < s.len() {
            assert(s[i] == u);
        }
    }
}

proof fn lemma_reachable_at(urls: Seq<Seq<char>>, u: Seq<char>)
    ensures
        reachable(urls).contains(u) <==> (urls.contains(u) && is_reachable(u)),
    decreases urls.len(),
{
    if urls.len() == 0 {
        assert(reachable(urls).len() == 0);
    } else {
        let init = urls.drop_last();
        let last = urls.last();
        lemma_reachable_at(init, u);
        assert(init.push(last) =~= urls);
        lemma_push_contains(init, last, u);
        if is_reachable(last) {
            assert(reachable(urls) == reachable(init).push(last));
            lemma_push_contains(reachable(init), last, u);
        } else {
            assert(reachable(urls) == reachable(init));
        }
    }
}

proof fn lemma_unreachable_at(urls: Seq<Seq<char>>, u: Seq<char>, reason: DestinationError)
    ensures
        unreachable(urls).contains((u, reason)) <==> (urls.contains(u) && target_of(url_parts(u))
            == Err::<(Seq<char>, Seq<char>, Option<Seq<char>>), DestinationError>(reason)),
    decreases urls.len(),
{
    if urls.len() == 0 {
        assert(unreachable(urls).len() == 0);
    } else {
        let init = urls.drop_last();
        let last = urls.last();
        lemma_unreachable_at(init, u, reason);
        assert(init.push(last) =~= urls);
        lemma_push_contains(init, last, u);
        match target_of(url_parts(last)) {
            Ok(_) => {
                assert(unreachable(urls) == unreachable(init));
            },
            Err(why) => {
                assert(unreachable(urls) == unreachable(init).push((last, why)));
                lemma_push_contains(unreachable(init), (last, why), (u, reason));
            },
        }
    }
}

/// Whether a destination is sent to or passed over depends on that
/// destination alone: a destination that cannot be reached does not keep a
/// request from going to another.
pub proof fn lemma_reachable(urls: Seq<Seq<char>>)
    ensures
        forall|u: Seq<char>|
            #![trigger reachable(urls).contains(u)]
            #![trigger urls.contains(u)]
            reachable(urls).contains(u) <==> urls.contains(u) && is_reachable(u),
        forall|u: Seq<char>, reason: DestinationError|
            #![trigger unreachable(urls).contains((u, reason))]
            unreachable(urls).contains((u, reason)) <==> urls.contains(u) && target_of(
                url_parts(u),
            ) == Err::<(Seq<char>, Seq<char>, Option<Seq<char>>), DestinationError>(reason),
{
    assert forall|u: Seq<char>|
        #![trigger reachable(urls).contains(u)]
        #![trigger urls.contains(u)]
        reachable(urls).contains(u) <==> urls.contains(u) && is_reachable(u) by {
        lemma_reachable_at(urls, u);
    }
    assert forall|u: Seq<char>, reason: DestinationError|
        #![trigger unreachable(urls).contains((u, reason))]
        unreachable(urls).contains((u, reason)) <==> urls.contains(u) && target_of(url_parts(u))
            == Err::<(Seq<char>, Seq<char>, Option<Seq<char>>), DestinationError>(reason) by {
        lemma_unreachable_at(urls, u, reason);
    }
}

/// Where no destination occurs twice, no destination is reached twice: each
/// gets one request at most.
pub proof fn lemma_reachable_distinct(urls: Seq<Seq<char>>)
    requires
        forall|a: int, b: int| 0 <= a < b < urls.len() ==> urls[a] != urls[b],
    ensures
        forall|a: int, b: int|
            0 <= a < b < reachable(urls).len() ==> reachable(urls)[a] != reachable(urls)[b],
    decreases urls.len(),
{
    if urls.len() > 0 {
        let init = urls.drop_last();
        let good = reachable(urls);
        let good0 = reachable(init);
        lemma_reachable_distinct(init);
        lemma_reachable(init);
        assert forall|a: int, b: int| 0 <= a < b < good.len() implies good[a] != good[b] by {
            if b == good0.len() {
                assert(good0[a] == good[a]);
                assert(good0.contains(good[a]));
                assert(init.contains(good[a]));
                let j = choose|j: int| 0 <= j < init.len() && init[j] == good[a];
                assert(urls[j] == good[a]);
            }
        }
    }
}

/// However many recipients share an inbox, one broadcast makes one request
/// for it at most.
pub proof fn lemma_one_request_per_destination(recipients: Seq<RecipientModel>)
    ensures
        forall|a: int, b: int|
            0 <= a < b < reachable(destination_set(recipients)).len() ==> reachable(
                destination_set(recipients),
            )[a] != reachable(destination_set(recipients))[b],
{
    lemma_destinations_distinct(recipients);
    lemma_reachable_distinct(destination_set(recipients));
}

/// The headers of the request to one host: the defaults of the transport,
/// then the media type of the body, `Host` and `Digest`.
pub open spec fn request_headers(
    defaults: Seq<(Seq<char>, Seq<char>)>,
    host: Seq<char>,
    digest: Seq<char>,
) -> Seq<(Seq<char>, Seq<char>)> {
    defaults.push(("Content-Type"@, AP_CONTENT_TYPE@)).push(("Host"@, host)).push(
        ("Digest"@, digest),
    )
}

/// The names of the media types that a request accepts, as one header value.
pub open spec fn accept_value() -> Seq<char> {
    joined(accept_media_types(), ", "@)
}

/// The defaults of the transport: who sends, when, and what is accepted in
/// answer.
pub open spec fn default_headers(user_agent: Seq<char>, date: Seq<char>) -> Seq<
    (Seq<char>, Seq<char>),
> {
    seq![("User-Agent"@, user_agent), ("Date"@, date), ("Accept"@, accept_value())]
}

/// `delivery` is the request of `sender` for `url`: it goes there, it
/// carries `body`, its headers are those of the request to the host of
/// `url`, and after them comes the `Signature` header that the sender made
/// for them and for the request line: `POST` to the path and query of `url`.
pub open spec fn is_delivery<S: Signer>(
    sender: &S,
    delivery: DeliveryModel,
    url: Seq<char>,
    defaults: Seq<(Seq<char>, Seq<char>)>,
    digest: Seq<char>,
    body: Seq<char>,
) -> bool {
    &&& delivery.url == url
    &&& delivery.body == body
    &&& target_of(url_parts(url)) matches Ok(target)
    &&& delivery.headers.len() == defaults.len() + 4
    &&& delivery.headers.drop_last() == request_headers(defaults, target.0, digest)
    &&& delivery.headers.last().0 == "Signature"@
    &&& is_header_value(delivery.headers.last().1)
    &&& is_signed_by(
        sender,
        delivery.headers.last().1,
        request_headers(defaults, target.0, digest),
        "post"@,
        target.1,
        target.2,
    )
}

/// `sender` left the request for `url` without a signature: asked to sign
/// it, it refused, or the header of what it gave could not stand in a
/// request.
pub open spec fn is_refused_at<S: Signer>(
    sender: &S,
    url: Seq<char>,
    defaults: Seq<(Seq<char>, Seq<char>)>,
    digest: Seq<char>,
) -> bool {
    target_of(url_parts(url)) matches Ok(target) && is_refused_by(
        sender,
        request_headers(defaults, target.0, digest),
        "post"@,
        target.1,
        target.2,
    )
}

/// `sender` left the request for one of the reachable ones among `urls`
/// without a signature.
pub open spec fn is_refusal<S: Signer>(
    sender: &S,
    urls: Seq<Seq<char>>,
    defaults: Seq<(Seq<char>, Seq<char>)>,
    digest: Seq<char>,
) -> bool {
    exists|k: int|
        0 <= k < reachable(urls).len() && is_refused_at(
            sender,
            #[trigger] reachable(urls)[k],
            defaults,
            digest,
        )
}

/// `deliveries` are the requests of `sender` for the reachable ones among
/// `urls`, in order, all with the same digest and body.
pub open spec fn are_deliveries<S: Signer>(
    sender: &S,
    deliveries: Seq<Delivery>,
    urls: Seq<Seq<char>>,
    defaults: Seq<(Seq<char>, Seq<char>)>,
    digest: Seq<char>,
    body: Seq<char>,
) -> bool {
    &&& deliveries.len() == reachable(urls).len()
    &&& forall|k: int|
        0 <= k < deliveries.len() ==> is_delivery(
            sender,
            (#[trigger] deliveries[k])@,
            reachable(urls)[k],
            defaults,
            digest,
            body,
        )
}

/// `dispatch` is what a broadcast of `body` to `urls` comes to: the
/// destinations that cannot be reached are noted, and each of the others
/// gets one request of `sender`, with the digest that `digester` gives for
/// `body`.
pub open spec fn is_dispatch<S: Signer, D: BodyDigest>(
    sender: &S,
    digester: &D,
    dispatch: Dispatch,
    urls: Seq<Seq<char>>,
    defaults: Seq<(Seq<char>, Seq<char>)>,
    body: Seq<char>,
) -> bool {
    &&& skipped_view(dispatch.skipped@) == unreachable(urls)
    &&& are_deliveries(
        sender,
        dispatch.deliveries@,
        urls,
        defaults,
        digest_of(digester, body),
        body,
    )
}

/// The defaults of the transport for a sender that goes by `user_agent`, at
/// the time that `date` gives.
pub fn transport_defaults(user_agent: &str, date: &str) -> (out: Vec<Header>)
    ensures
        headers_view(out@) == default_headers(user_agent@, date@),
{
    let types = ap_accept_header();
    let mut names: Vec<String> = Vec::new();
    let mut i: usize = 0;
    while i < types.len()
        invariant
            i <= types.len(),
            texts(types@) == accept_media_types(),
            names@.len() == i,
            forall|k: int| 0 <= k < i ==> (#[trigger] names@[k])@ == accept_media_types()[k],
        decreases types.len() - i,
    {
        assert(texts(types@)[i as int] == types@[i as int]@);
        names.push(types[i].to_owned());
        i += 1;
    }
    assert(texts(types@).len() == types@.len());
    assert(strings_view(names@) =~= accept_media_types());
    let accept = join(&names, ", ");
    let mut out: Vec<Header> = Vec::new();
    out.push(header("User-Agent", user_agent));
    out.push(header("Date", date));
    out.push(header("Accept", accept.as_str()));
    assert(headers_view(out@) =~= default_headers(user_agent@, date@));
    out
}

fn copy_headers(headers: &Vec<Header>) -> (out: Vec<Header>)
    ensures
        headers_view(out@) == headers_view(headers@),
{
    let mut out: Vec<Header> = Vec::new();
    let mut i: usize = 0;
    while i < headers.len()
        invariant
            i <= headers.len(),
            out@.len() == i,
            forall|k: int| 0 <= k < i ==> (#[trigger] out@[k])@ == headers@[k]@,
        decreases headers.len() - i,
    {
        out.push(Header { name: headers[i].name.clone(), value: headers[i].value.clone() });
        i += 1;
    }
    assert(headers_view(out@) =~= headers_view(headers@));
    out
}

fn header(name: &str, value: &str) -> (out: Header)
    ensures
        out@ == (name@, value@),
{
    Header { name: name.to_owned(), value: value.to_owned() }
}

/// The signed request that carries `body` to an inbox: sent by `POST` to the
/// path and query of the target, with the headers of the request to its host
/// and, after them, the `Signature` header that the sender made for them.
/// The sender signs the headers of the request and its request line; the
/// body it does not see. There is no request where the sender refuses to
/// sign, or where the header of what it gave cannot stand in a request.
pub fn deliver<S: Signer>(
    sender: &S,
    url: &str,
    target: &RequestTarget,
    defaults: &Vec<Header>,
    digest: &str,
    body: &str,
) -> (out: Result<Delivery, SignatureError>)
    requires
        target_of(url_parts(url@)) == Ok::<
            (Seq<char>, Seq<char>, Option<Seq<char>>),
            DestinationError,
        >(target@),
    ensures
        match out {
            Ok(delivery) => is_delivery(
                sender,
                delivery@,
                url@,
                headers_view(defaults@),
                digest@,
                body@,
            ),
            Err(_) => is_refused_at(sender, url@, headers_view(defaults@), digest@),
        },
{
    let mut headers = copy_headers(defaults);
    headers.push(header("Content-Type", AP_CONTENT_TYPE));
    headers.push(header("Host", target.host.as_str()));
    headers.push(header("Digest", digest));
    let ghost signed = headers_view(headers@);
    assert(signed =~= request_headers(headers_view(defaults@), target.host@, digest@));
    let query = match &target.query {
        Some(q) => Some(q.as_str()),
        None => None,
    };
    match signature(sender, &headers, ("post", target.path.as_str(), query)) {
        Ok(value) => {
            headers.push(Header { name: "Signature".to_owned(), value });
            assert(headers_view(headers@).drop_last() =~= signed);
            assert(headers_view(headers@).last() == headers@[headers@.len() - 1]@);
            Ok(Delivery { url: url.to_owned(), headers, body: body.to_owned() })
        },
        Err(e) => Err(e),
    }
}

/// Makes the requests that carry `body` to `urls`. A destination that cannot
/// be reached is passed over and noted; the others are not held up by it. A
/// signature that cannot be made ends the whole dispatch, and nothing else
/// does.
pub fn dispatch<S: Signer>(
    sender: &S,
    urls: &Vec<String>,
    defaults: &Vec<Header>,
    digest: &str,
    body: &str,
) -> (out: Result<Dispatch, SignatureError>)
    ensures
        match out {
            Ok(dispatch) => {
                &&& skipped_view(dispatch.skipped@) == unreachable(strings_view(urls@))
                &&& are_deliveries(
                    sender,
                    dispatch.deliveries@,
                    strings_view(urls@),
                    headers_view(defaults@),
                    digest@,
                    body@,
                )
            },
            Err(_) => is_refusal(sender, strings_view(urls@), headers_view(defaults@), digest@),
        },
        reachable(strings_view(urls@)).len() == 0 ==> out is Ok,
{
    let ghost all = strings_view(urls@);
    let mut deliveries: Vec<Delivery> = Vec::new();
    let mut skipped: Vec<Skipped> = Vec::new();
    let mut i: usize = 0;
    while i < urls.len()
        invariant
            i <= urls.len(),
            all == strings_view(urls@),
            skipped_view(skipped@) == unreachable(all.take(i as int)),
            are_deliveries(
                sender,
                deliveries@,
                all.take(i as int),
                headers_view(defaults@),
                digest@,
                body@,
            ),
        decreases urls.len() - i,
    {
        let ghost sent = deliveries@;
        let ghost passed = skipped@;
        let url = urls[i].as_str();
        proof {
            assert(all.take(i + 1).drop_last() =~= all.take(i as int));
            assert(all.take(i + 1).last() == url@);
        }
        match RequestTarget::resolve(url) {
            Ok(target) => {
                match deliver(sender, url, &target, defaults, digest, body) {
                    Ok(delivery) => {
                        deliveries.push(delivery);
                    },
                    Err(e) => {
                        proof {
                            lemma_reachable(all);
                            assert(all[i as int] == url@);
                            assert(all.contains(url@));
                            assert(reachable(all).contains(url@));
                            let k = choose|k: int|
                                0 <= k < reachable(all).len() && reachable(all)[k] == url@;
                            assert(is_refused_at(
                                sender,
                                reachable(all)[k],
                                headers_view(defaults@),
                                digest@,
                            ));
                        }
                        return Err(e);
                    },
                }
            },
            Err(reason) => {
                skipped.push(Skipped { url: url.to_owned(), reason });
                assert(skipped_view(skipped@) =~= skipped_view(passed).push((url@, reason)));
            },
        }
        i += 1;
    }
    assert(all.take(urls.len() as int) =~= all);
    Ok(Dispatch { deliveries, skipped })
}

/// Prepares the broadcast of an activity to recipients that have been asked
/// for their inboxes: the document of the activity with the canonical context,
/// its text, and one signed request for each destination of the destination
/// set that can be reached.
pub fn broadcast_to<S: Signer, D: BodyDigest, A: IntoJson>(
    sender: &S,
    digester: &D,
    act: A,
    recipients: &Vec<Recipient>,
    defaults: &Vec<Header>,
) -> (out: Result<Dispatch, BroadcastError>)
    ensures
        match out {
            Ok(dispatch) => enveloped(act) matches Ok(doc) && is_dispatch(
                sender,
                digester,
                dispatch,
                destination_set(recipients_view(recipients@)),
                headers_view(defaults@),
                json_text(doc),
            ),
            Err(BroadcastError::Serialization(e)) => enveloped(act) == Err::<
                JsonValue,
                SerializationError,
            >(e),
            Err(BroadcastError::Signature) => enveloped(act) matches Ok(doc) && is_refusal(
                sender,
                destination_set(recipients_view(recipients@)),
                headers_view(defaults@),
                digest_of(digester, json_text(doc)),
            ),
        },
{
    let doc = match ActivityStream::new(act).render() {
        Ok(doc) => doc,
        Err(e) => {
            return Err(BroadcastError::Serialization(e));
        },
    };
    let body = to_text(&doc);
    let algorithm = digester.algorithm();
    let hash = digester.hash(body.as_str());
    let digest = digest_header(algorithm.as_str(), &hash);
    let urls = destinations(recipients);
    match dispatch(sender, &urls, defaults, digest.as_str(), body.as_str()) {
        Ok(dispatch) => Ok(dispatch),
        Err(_) => Err(BroadcastError::Signature),
    }
}

/// Prepares the broadcast of an activity: asks each target once for its
/// inboxes, and goes on as `broadcast_to` does with what they said. The
/// destinations are those of the targets that are not local, each one once;
/// each of them that can be reached gets one request; a signature that
/// cannot be made ends the whole broadcast.
pub fn broadcast<S: Signer, D: BodyDigest, A: IntoJson, T: DeliveryTarget>(
    sender: &S,
    digester: &D,
    act: A,
    to: Vec<T>,
    defaults: &Vec<Header>,
) -> (out: Result<Dispatch, BroadcastError>)
    ensures
        match out {
            Ok(dispatch) => enveloped(act) matches Ok(doc) && is_dispatch(
                sender,
                digester,
                dispatch,
                destination_set(said(to@)),
                headers_view(defaults@),
                json_text(doc),
            ),
            Err(BroadcastError::Serialization(e)) => enveloped(act) == Err::<
                JsonValue,
                SerializationError,
            >(e),
            Err(BroadcastError::Signature) => enveloped(act) matches Ok(doc) && is_refusal(
                sender,
                destination_set(said(to@)),
                headers_view(defaults@),
                digest_of(digester, json_text(doc)),
            ),
        },
{
    let recipients = recipients_of(&to);
    broadcast_to(sender, digester, act, &recipients, defaults)
}

/// Prepares the broadcast of an activity of the newer vocabulary. The
/// destinations and the requests are those of `broadcast`.
pub fn broadcast07<S: Signer, D: BodyDigest, A: IntoJson, T: DeliveryTarget>(
    sender: &S,
    digester: &D,
    act: A,
    to: Vec<T>,
    defaults: &Vec<Header>,
) -> (out: Result<Dispatch, BroadcastError>)
    ensures
        match out {
            Ok(dispatch) => enveloped(act) matches Ok(doc) && is_dispatch(
                sender,
                digester,
                dispatch,
                destination_set(said(to@)),
                headers_view(defaults@),
                json_text(doc),
            ),
            Err(BroadcastError::Serialization(e)) => enveloped(act) == Err::<
                JsonValue,
                SerializationError,
            >(e),
            Err(BroadcastError::Signature) => enveloped(act) matches Ok(doc) && is_refusal(
                sender,
                destination_set(said(to@)),
                headers_view(defaults@),
                digest_of(digester, json_text(doc)),
            ),
        },
{
    broadcast(sender, digester, act, to, defaults)
}

} // verus!
