//! Content negotiation: whether an inbound request asks for the structured
//! protocol representation or for the human-readable one.

use crate::text::{chars_of, range_equals, texts, trim, trim_bounds};
use vstd::prelude::*;

verus! {

/// The media types that ask for the protocol representation.
pub open spec fn accept_media_types() -> Seq<Seq<char>> {
    seq![
        "application/ld+json; profile=\"https://w3.org/ns/activitystreams\""@,
        "application/ld+json;profile=\"https://w3.org/ns/activitystreams\""@,
        "application/activity+json"@,
        "application/ld+json"@,
    ]
}

/// The media type of the human-readable representation.
pub open spec fn html_media_type() -> Seq<char> {
    "text/html"@
}

pub fn ap_accept_header() -> (types: Vec<&'static str>)
    ensures
        texts(types@) == accept_media_types(),
{
    let mut types: Vec<&'static str> = Vec::new();
    types.push("application/ld+json; profile=\"https://w3.org/ns/activitystreams\"");
    types.push("application/ld+json;profile=\"https://w3.org/ns/activitystreams\"");
    types.push("application/activity+json");
    types.push("application/ld+json");
    assert(texts(types@) =~= accept_media_types());
    types
}

/// The index of the first `,` of `s` at or after `from`, or the length of `s`
/// where there is none.
pub open spec fn comma_at(s: Seq<char>, from: int) -> int
    decreases s.len() - from,
{
    if from >= s.len() {
        s.len() as int
    } else if s[from] == ',' {
        from
    } else {
        comma_at(s, from + 1)
    }
}

/// The media ranges of the part of a header value that starts at `from`: the
/// pieces between commas, each one trimmed.
pub open spec fn ranges_from(s: Seq<char>, from: int) -> Seq<Seq<char>>
    decreases s.len() - from,
{
    let end = comma_at(s, from);
    let range = trim(s.subrange(from, end));
    if 0 <= from <= end < s.len() {
        seq![range] + ranges_from(s, end + 1)
    } else {
        seq![range]
    }
}

/// The media ranges of a header value, in header order.
pub open spec fn media_ranges(s: Seq<char>) -> Seq<Seq<char>> {
    ranges_from(s, 0)
}

/// A request for the protocol representation.
#[derive(Clone, Copy, Debug, PartialEq, Eq, Structural)]
pub struct ApRequest;

/// What a request is routed to.
#[derive(Clone, Copy, Debug, PartialEq, Eq, Structural)]
pub enum Negotiation {
    /// The request is served as a structured protocol request.
    Protocol(ApRequest),
    /// The request goes on to the human-readable path. The flag is `true`
    /// where the client asked for HTML, `false` where it asked for anything
    /// else or for nothing.
    PassThrough(bool),
}

/// The routing decision for the value of an `Accept` header. A protocol media
/// type anywhere among the ranges decides for the protocol; failing that,
/// `text/html` anywhere decides for a confident pass-through.
pub open spec fn negotiate(accept: Option<Seq<char>>) -> Negotiation {
    match accept {
        None => Negotiation::PassThrough(false),
        Some(header) => {
            let ranges = media_ranges(header);
            if exists|i: int| 0 <= i < ranges.len() && accept_media_types().contains(#[trigger] ranges[i]) {
                Negotiation::Protocol(ApRequest)
            } else if ranges.contains(html_media_type()) {
                Negotiation::PassThrough(true)
            } else {
                Negotiation::PassThrough(false)
            }
        },
    }
}

fn find_comma(v: &Vec<char>, from: usize) -> (end: usize)
    requires
        from <= v.len(),
    ensures
        end == comma_at(v@, from as int),
        from <= end <= v.len(),
{
    let mut end: usize = from;
    while end < v.len() && v[end] != ','
        invariant
            from <= end <= v.len(),
            comma_at(v@, from as int) == comma_at(v@, end as int),
        decreases v.len() - end,
    {
        end += 1;
    }
    end
}

fn is_protocol_range(v: &Vec<char>, from: usize, to: usize) -> (found: bool)
    requires
        from <= to <= v.len(),
    ensures
        found == accept_media_types().contains(v@.subrange(from as int, to as int)),
{
    let types = ap_accept_header();
    let ghost range = v@.subrange(from as int, to as int);
    let mut i: usize = 0;
    while i < types.len()
        invariant
            from <= to <= v.len(),
            i <= types.len(),
            range == v@.subrange(from as int, to as int),
            texts(types@) == accept_media_types(),
            forall|k: int| 0 <= k < i ==> accept_media_types()[k] != range,
        decreases types.len() - i,
    {
        let word = chars_of(types[i]);
        assert(texts(types@)[i as int] == types@[i as int]@);
        if range_equals(v, from, to, &word) {
            assert(accept_media_types()[i as int] == range);
            return true;
        }
        i += 1;
    }
    assert(texts(types@).len() == types@.len());
    false
}

impl ApRequest {
    /// Decides from the raw value of the `Accept` header, `None` where the
    /// request has none.
    pub fn from_request(accept: Option<&str>) -> (outcome: Negotiation)
        ensures
            outcome == negotiate(
                match accept {
                    Some(header) => Some(header@),
                    None => None,
                },
            ),
    {
        let header = match accept {
            Some(header) => header,
            None => { return Negotiation::PassThrough(false); },
        };
        let chars = chars_of(header);
        let html = chars_of("text/html");
        let mut protocol = false;
        let mut confident = false;
        let mut start: usize = 0;
        let ghost mut seen: Seq<Seq<char>> = Seq::empty();
        loop
            invariant_except_break
                start <= chars.len(),
                media_ranges(chars@) == seen + ranges_from(chars@, start as int),
            invariant
                chars@ == header@,
                html@ == html_media_type(),
                protocol == exists|i: int|
                    0 <= i < seen.len() && accept_media_types().contains(#[trigger] seen[i]),
                confident == seen.contains(html_media_type()),
            ensures
                media_ranges(chars@) == seen,
            decreases chars.len() - start,
        {
            let end = find_comma(&chars, start);
            let (lo, hi) = trim_bounds(&chars, start, end);
            let ghost range = chars@.subrange(lo as int, hi as int);
            let is_protocol = is_protocol_range(&chars, lo, hi);
            let is_html = range_equals(&chars, lo, hi, &html);
            proof {
                let before = seen;
                seen = seen.push(range);
                assert(forall|i: int| 0 <= i < before.len() ==> seen[i] == before[i]);
                assert(seen[before.len() as int] == range);
                if is_protocol {
                    assert(accept_media_types().contains(seen[before.len() as int]));
                }
                if is_html {
                    assert(seen[before.len() as int] == html_media_type());
                }
                if end < chars.len() {
                    assert(before + (seq![range] + ranges_from(chars@, end + 1)) =~= seen
                        + ranges_from(chars@, end + 1));
                } else {
                    assert(before + seq![range] =~= seen);
                }
            }
            protocol = protocol || is_protocol;
            confident = confident || is_html;
            if end >= chars.len() {
                break;
            }
            start = end + 1;
        }
        if protocol {
            Negotiation::Protocol(ApRequest)
        } else {
            Negotiation::PassThrough(confident)
        }
    }
}

} // verus!
