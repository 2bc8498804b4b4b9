//! The HTTP signature of one request: the string that is signed, and the
//! header that carries the signature.

use crate::base64::{base64, encode};
use crate::target::{header_value_accepts, is_header_value};
use crate::text::{join, joined, lowercase, strings_view, to_lowercase};
use vstd::prelude::*;
use vstd::string::*;

verus! {

/// One header of a request.
#[derive(Debug, PartialEq, Eq)]
pub struct Header {
    pub name: String,
    pub value: String,
}

impl View for Header {
    type V = (Seq<char>, Seq<char>);

    open spec fn view(&self) -> (Seq<char>, Seq<char>) {
        (self.name@, self.value@)
    }
}

/// The views of a list of headers.
pub open spec fn headers_view(headers: Seq<Header>) -> Seq<(Seq<char>, Seq<char>)> {
    Seq::new(headers.len(), |i: int| headers[i]@)
}

/// A signature could not be made.
#[derive(Clone, Copy, Debug, PartialEq, Eq, Structural)]
pub struct SignatureError;

/// The view of a signature or of the refusal to make one.
pub open spec fn answer_view(answer: Result<Vec<u8>, SignatureError>) -> Result<
    Seq<u8>,
    SignatureError,
> {
    match answer {
        Ok(signature) => Ok(signature@),
        Err(e) => Err(e),
    }
}

/// The view of a string slice that may be absent.
pub open spec fn slice_view(text: Option<&str>) -> Option<Seq<char>> {
    match text {
        Some(t) => Some(t@),
        None => None,
    }
}

/// The holder of a key pair. What it signs and how is its own matter: this
/// crate hands it the string to sign and takes the signature as it comes.
/// The two relations give its answers a name, so that a contract can say
/// which answer a header was made of. They promise nothing of the answers:
/// whether the signer signs, and what the signature is, stays with the
/// signer.
pub trait Signer {
    /// `id` is an answer that the signer may give when it is asked for its
    /// key.
    spec fn names_key(&self, id: Seq<char>) -> bool;

    /// `answer` is an answer that the signer may give when it is asked to
    /// sign `data`: a signature, or its refusal.
    spec fn answers(&self, data: Seq<char>, answer: Result<Seq<u8>, SignatureError>) -> bool;

    /// The identifier under which the public key can be found.
    fn get_key_id(&self) -> (id: String)
        ensures
            self.names_key(id@),
    ;

    /// Signs `to_sign`.
    fn sign(&self, to_sign: &str) -> (answer: Result<Vec<u8>, SignatureError>)
        ensures
            self.answers(to_sign@, answer_view(answer)),
    ;

    /// Whether `signature` is a signature of `data` under this key pair.
    fn verify(&self, data: &str, signature: &Vec<u8>) -> Result<bool, SignatureError>;
}

/// The path of a request with its query, as it stands in the request line.
pub open spec fn origin_form(path: Seq<char>, query: Option<Seq<char>>) -> Seq<char> {
    match query {
        Some(q) => path + "?"@ + q,
        None => path,
    }
}

/// The name under which the request line is signed.
pub open spec fn request_target_name() -> Seq<char> {
    "(request-target)"@
}

/// The names of what is signed: those of the headers, in lower case and in
/// their order, then that of the request line.
pub open spec fn signed_names(headers: Seq<(Seq<char>, Seq<char>)>) -> Seq<Seq<char>> {
    Seq::new(headers.len(), |i: int| lowercase(headers[i].0)).push(request_target_name())
}

/// One line of the string that is signed.
pub open spec fn signed_line(name: Seq<char>, value: Seq<char>) -> Seq<char> {
    name + ": "@ + value
}

/// The lines of the string that is signed: one for each header, then the
/// request line with the method in lower case.
pub open spec fn signed_lines(
    headers: Seq<(Seq<char>, Seq<char>)>,
    method: Seq<char>,
    path: Seq<char>,
    query: Option<Seq<char>>,
) -> Seq<Seq<char>> {
    Seq::new(headers.len(), |i: int| signed_line(lowercase(headers[i].0), headers[i].1)).push(
        signed_line(request_target_name(), lowercase(method) + " "@ + origin_form(path, query)),
    )
}

/// The string that is signed.
pub open spec fn signing_string(
    headers: Seq<(Seq<char>, Seq<char>)>,
    method: Seq<char>,
    path: Seq<char>,
    query: Option<Seq<char>>,
) -> Seq<char> {
    joined(signed_lines(headers, method, path, query), "\n"@)
}

/// The value of the `Signature` header.
pub open spec fn signature_value(
    key_id: Seq<char>,
    headers: Seq<(Seq<char>, Seq<char>)>,
    signature: Seq<u8>,
) -> Seq<char> {
    "keyId=\""@ + key_id + "\",algorithm=\"rsa-sha256\",headers=\""@ + joined(
        signed_names(headers),
        " "@,
    ) + "\",signature=\""@ + base64(signature) + "\""@
}

/// The path of a request with its query.
pub fn origin(path: &str, query: Option<&str>) -> (out: String)
    ensures
        out@ == origin_form(
            path@,
            match query {
                Some(q) => Some(q@),
                None => None,
            },
        ),
{
    let mut out = path.to_owned();
    match query {
        Some(q) => {
            out.append("?");
            out.append(q);
        },
        None => {},
    }
    out
}

fn line(name: &str, value: &str) -> (out: String)
    ensures
        out@ == signed_line(name@, value@),
{
    let mut out = name.to_owned();
    out.append(": ");
    out.append(value);
    out
}

/// The string that is signed for a request with these headers and this
/// request line.
pub fn string_to_sign(headers: &Vec<Header>, method: &str, path: &str, query: Option<&str>) -> (out:
    String)
    ensures
        out@ == signing_string(
            headers_view(headers@),
            method@,
            path@,
            match query {
                Some(q) => Some(q@),
                None => None,
            },
        ),
{
    let ghost query_view = match query {
        Some(q) => Some(q@),
        None => None,
    };
    let ghost all = signed_lines(headers_view(headers@), method@, path@, query_view);
    let mut lines: Vec<String> = Vec::new();
    let mut i: usize = 0;
    while i < headers.len()
        invariant
            i <= headers.len(),
            all == signed_lines(headers_view(headers@), method@, path@, query_view),
            lines@.len() == i,
            forall|k: int| 0 <= k < i ==> (#[trigger] lines@[k])@ == all[k],
        decreases headers.len() - i,
    {
        let name = to_lowercase(headers[i].name.as_str());
        lines.push(line(name.as_str(), headers[i].value.as_str()));
        assert(headers_view(headers@)[i as int] == headers@[i as int]@);
        i += 1;
    }
    let mut request_line = to_lowercase(method);
    request_line.append(" ");
    request_line.append(origin(path, query).as_str());
    lines.push(line("(request-target)", request_line.as_str()));
    assert(strings_view(lines@) =~= all);
    join(&lines, "\n")
}

/// The names of what is signed, separated by spaces.
pub fn names_signed(headers: &Vec<Header>) -> (out: String)
    ensures
        out@ == joined(signed_names(headers_view(headers@)), " "@),
{
    let ghost all = signed_names(headers_view(headers@));
    let mut names: Vec<String> = Vec::new();
    let mut i: usize = 0;
    while i < headers.len()
        invariant
            i <= headers.len(),
            all == signed_names(headers_view(headers@)),
            names@.len() == i,
            forall|k: int| 0 <= k < i ==> (#[trigger] names@[k])@ == all[k],
        decreases headers.len() - i,
    {
        names.push(to_lowercase(headers[i].name.as_str()));
        assert(headers_view(headers@)[i as int] == headers@[i as int]@);
        i += 1;
    }
    names.push("(request-target)".to_owned());
    assert(strings_view(names@) =~= all);
    join(&names, " ")
}

/// The value of the `Signature` header for a signature that has been made.
/// There is none where the value could not stand in a header.
pub fn signature_header(key_id: &str, headers: &Vec<Header>, signature: &Vec<u8>) -> (out: Result<
    String,
    SignatureError,
>)
    ensures
        match out {
            Ok(value) => value@ == signature_value(key_id@, headers_view(headers@), signature@)
                && is_header_value(value@),
            Err(_) => !is_header_value(
                signature_value(key_id@, headers_view(headers@), signature@),
            ),
        },
{
    let mut value = "keyId=\"".to_owned();
    value.append(key_id);
    value.append("\",algorithm=\"rsa-sha256\",headers=\"");
    value.append(names_signed(headers).as_str());
    value.append("\",signature=\"");
    value.append(encode(signature).as_str());
    value.append("\"");
    if header_value_accepts(value.as_str()) {
        Ok(value)
    } else {
        Err(SignatureError)
    }
}

/// A value of the `Signature` header that some key and some signature give
/// for these headers.
pub open spec fn is_signature_for(value: Seq<char>, headers: Seq<(Seq<char>, Seq<char>)>) -> bool {
    exists|key_id: Seq<char>, signature: Seq<u8>|
        value == #[trigger] signature_value(key_id, headers, signature)
}

/// `value` is the `Signature` header that `signer` made for a request with
/// these headers and this request line: the signer named the key, it gave
/// the signature when it was asked to sign the signing string of the
/// request, and the header holds the two.
pub open spec fn is_signed_by<S: Signer>(
    signer: &S,
    value: Seq<char>,
    headers: Seq<(Seq<char>, Seq<char>)>,
    method: Seq<char>,
    path: Seq<char>,
    query: Option<Seq<char>>,
) -> bool {
    exists|key_id: Seq<char>, signature: Seq<u8>|
        signer.names_key(key_id) && signer.answers(
            signing_string(headers, method, path, query),
            Ok(signature),
        ) && value == #[trigger] signature_value(key_id, headers, signature)
}

/// `signer` left a request with these headers and this request line without
/// a `Signature` header: asked to sign the signing string of the request it
/// refused, or the header of what it gave could not stand in a request.
pub open spec fn is_refused_by<S: Signer>(
    signer: &S,
    headers: Seq<(Seq<char>, Seq<char>)>,
    method: Seq<char>,
    path: Seq<char>,
    query: Option<Seq<char>>,
) -> bool {
    ||| signer.answers(signing_string(headers, method, path, query), Err(SignatureError))
    ||| exists|key_id: Seq<char>, signature: Seq<u8>|
        signer.names_key(key_id) && signer.answers(
            signing_string(headers, method, path, query),
            Ok(signature),
        ) && !is_header_value(#[trigger] signature_value(key_id, headers, signature))
}

/// The signer answers in one way: asked twice for the same, it gives the
/// same.
pub open spec fn answers_one_way<S: Signer>(signer: &S) -> bool {
    &&& forall|a: Seq<char>, b: Seq<char>|
        signer.names_key(a) && signer.names_key(b) ==> a == b
    &&& forall|
        data: Seq<char>,
        a: Result<Seq<u8>, SignatureError>,
        b: Result<Seq<u8>, SignatureError>,
    | signer.answers(data, a) && signer.answers(data, b) ==> a == b
}

/// With a signer that answers in one way, the `Signature` header of a request
/// is one and the same, however often it is made.
pub proof fn lemma_signature_stable<S: Signer>(
    signer: &S,
    one: Seq<char>,
    other: Seq<char>,
    headers: Seq<(Seq<char>, Seq<char>)>,
    method: Seq<char>,
    path: Seq<char>,
    query: Option<Seq<char>>,
)
    requires
        answers_one_way(signer),
        is_signed_by(signer, one, headers, method, path, query),
        is_signed_by(signer, other, headers, method, path, query),
    ensures
        one == other,
{
    let data = signing_string(headers, method, path, query);
    let (key_a, made_a) = choose|key_id: Seq<char>, signature: Seq<u8>|
        signer.names_key(key_id) && signer.answers(data, Ok(signature)) && one
            == #[trigger] signature_value(key_id, headers, signature);
    let (key_b, made_b) = choose|key_id: Seq<char>, signature: Seq<u8>|
        signer.names_key(key_id) && signer.answers(data, Ok(signature)) && other
            == #[trigger] signature_value(key_id, headers, signature);
    assert(key_a == key_b);
    assert(Ok::<Seq<u8>, SignatureError>(made_a) == Ok::<Seq<u8>, SignatureError>(made_b));
}

/// Has `signer` sign the request and gives the value of the `Signature`
/// header. The signer is handed the signing string of the request and
/// nothing else. There is a value where the signer gives a signature and the
/// header made of it can stand in a request, and only there.
pub fn signature<S: Signer>(
    signer: &S,
    headers: &Vec<Header>,
    request_target: (&str, &str, Option<&str>),
) -> (out: Result<String, SignatureError>)
    ensures
        match out {
            Ok(value) => {
                &&& is_signed_by(
                    signer,
                    value@,
                    headers_view(headers@),
                    request_target.0@,
                    request_target.1@,
                    slice_view(request_target.2),
                )
                &&& is_signature_for(value@, headers_view(headers@))
                &&& is_header_value(value@)
            },
            Err(_) => is_refused_by(
                signer,
                headers_view(headers@),
                request_target.0@,
                request_target.1@,
                slice_view(request_target.2),
            ),
        },
{
    let (method, path, query) = request_target;
    let to_sign = string_to_sign(headers, method, path, query);
    match signer.sign(to_sign.as_str()) {
        Ok(data) => {
            let key_id = signer.get_key_id();
            signature_header(key_id.as_str(), headers, &data)
        },
        Err(_) => Err(SignatureError),
    }
}

} // verus!
