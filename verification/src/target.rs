//! Destinations: what a URL must hold for a request to be sent to it.

use crate::text::text_view;
use vstd::prelude::*;

verus! {

/// The parts of a parsed URL that a delivery needs.
#[derive(Debug, PartialEq, Eq)]
pub struct UrlParts {
    pub host: Option<String>,
    pub path: String,
    pub query: Option<String>,
}

/// Why nothing is sent to a destination.
#[derive(Clone, Copy, Debug, PartialEq, Eq, Structural)]
pub enum DestinationError {
    /// The destination is no URL.
    InvalidUrl,
    /// The URL names no host.
    NoHost,
    /// The host cannot stand in a header.
    InvalidHost,
}

/// Where a request goes: the host, and the path and query of the request
/// line.
#[derive(Debug, PartialEq, Eq)]
pub struct RequestTarget {
    pub host: String,
    pub path: String,
    pub query: Option<String>,
}

impl View for UrlParts {
    type V = (Option<Seq<char>>, Seq<char>, Option<Seq<char>>);

    open spec fn view(&self) -> (Option<Seq<char>>, Seq<char>, Option<Seq<char>>) {
        (text_view(self.host), self.path@, text_view(self.query))
    }
}

impl View for RequestTarget {
    type V = (Seq<char>, Seq<char>, Option<Seq<char>>);

    open spec fn view(&self) -> (Seq<char>, Seq<char>, Option<Seq<char>>) {
        (self.host@, self.path@, text_view(self.query))
    }
}

/// The view of what parsing gave.
pub open spec fn parts_view(parts: Option<UrlParts>) -> Option<
    (Option<Seq<char>>, Seq<char>, Option<Seq<char>>),
> {
    match parts {
        Some(p) => Some(p@),
        None => None,
    }
}

/// The view of a target or of the reason why there is none.
pub open spec fn target_view(target: Result<RequestTarget, DestinationError>) -> Result<
    (Seq<char>, Seq<char>, Option<Seq<char>>),
    DestinationError,
> {
    match target {
        Ok(t) => Ok(t@),
        Err(e) => Err(e),
    }
}

/// What the URL parser makes of a text: nothing where the text is no
/// absolute URL, else the host (if the URL has one), the path and the query
/// (if the URL has one) of the parsed URL.
pub uninterp spec fn url_parts(text: Seq<char>) -> Option<
    (Option<Seq<char>>, Seq<char>, Option<Seq<char>>),
>;

/// `reqwest::Url::parse`, with the host, path and query of the parsed URL
/// read off by `host_str`, `path` and `query`.
#[verifier::external_body]
fn parse_url(text: &str) -> (parts: Option<UrlParts>)
    ensures
        parts_view(parts) == url_parts(text@),
{
    match reqwest::Url::parse(text) {
        Ok(url) => Some(
            UrlParts {
                host: url.host_str().map(String::from),
                path: String::from(url.path()),
                query: url.query().map(String::from),
            },
        ),
        Err(_) => None,
    }
}

/// A character that a header value may hold: any but the control characters
/// of ASCII, of which the tab alone is allowed.
pub open spec fn is_header_char(c: char) -> bool {
    (c as u32 >= 32 && c as u32 != 127) || c as u32 == 9
}

/// A text that can stand as the value of a header.
pub open spec fn is_header_value(text: Seq<char>) -> bool {
    forall|i: int| 0 <= i < text.len() ==> is_header_char(#[trigger] text[i])
}

/// `reqwest::header::HeaderValue::from_str`, for whether it accepts `text`.
/// It accepts a text of which every byte is at least 32 and not 127, or is
/// the tab; the bytes of a character beyond ASCII are all above 127.
#[verifier::external_body]
pub(crate) fn header_value_accepts(text: &str) -> (accepted: bool)
    ensures
        accepted == is_header_value(text@),
{
    reqwest::header::HeaderValue::from_str(text).is_ok()
}

/// The target that the parts of a URL give, or why they give none.
pub open spec fn target_of(
    parts: Option<(Option<Seq<char>>, Seq<char>, Option<Seq<char>>)>,
) -> Result<(Seq<char>, Seq<char>, Option<Seq<char>>), DestinationError> {
    match parts {
        None => Err(DestinationError::InvalidUrl),
        Some((None, _, _)) => Err(DestinationError::NoHost),
        Some((Some(host), path, query)) => if is_header_value(host) {
            Ok((host, path, query))
        } else {
            Err(DestinationError::InvalidHost)
        },
    }
}

impl RequestTarget {
    /// The target that parsed parts give: there must be parts, they must
    /// name a host, and the host must be fit for a header.
    pub fn from_parts(parts: Option<UrlParts>) -> (target: Result<RequestTarget, DestinationError>)
        ensures
            target_view(target) == target_of(parts_view(parts)),
    {
        match parts {
            None => Err(DestinationError::InvalidUrl),
            Some(UrlParts { host, path, query }) => match host {
                None => Err(DestinationError::NoHost),
                Some(host) => {
                    if header_value_accepts(host.as_str()) {
                        Ok(RequestTarget { host, path, query })
                    } else {
                        Err(DestinationError::InvalidHost)
                    }
                },
            },
        }
    }

    /// The target of a destination URL.
    pub fn resolve(url: &str) -> (target: Result<RequestTarget, DestinationError>)
        ensures
            target_view(target) == target_of(url_parts(url@)),
    {
        RequestTarget::from_parts(parse_url(url))
    }
}

} // verus!
