//! Identifiers of resources: absolute IRIs, held as the text they were
//! written in.

use crate::bag::SerializationError;
use vstd::prelude::*;

verus! {

/// Whether a text is an absolute IRI, with or without a fragment: the rule
/// `IRI` of RFC 3987.
pub uninterp spec fn is_iri(text: Seq<char>) -> bool;

/// `IriString::from_str` of `iri_string`, as `activitystreams` hands it on,
/// for whether it accepts `text`.
#[verifier::external_body]
fn accepted_as_iri(text: &str) -> (accepted: bool)
    ensures
        accepted == is_iri(text@),
{
    text.parse::<activitystreams::iri_string::types::IriString>().is_ok()
}

/// An absolute IRI.
#[derive(Debug, PartialEq, Eq)]
pub struct Iri {
    text: String,
}

impl View for Iri {
    type V = Seq<char>;

    closed spec fn view(&self) -> Seq<char> {
        self.text@
    }
}

impl Iri {
    #[verifier::type_invariant]
    spec fn wf(self) -> bool {
        is_iri(self.text@)
    }

    /// The IRI that `text` is, if it is one.
    pub fn parse(text: &str) -> (iri: Option<Iri>)
        ensures
            match iri {
                Some(iri) => iri@ == text@ && is_iri(text@),
                None => !is_iri(text@),
            },
    {
        if accepted_as_iri(text) {
            Some(Iri { text: text.to_owned() })
        } else {
            None
        }
    }

    /// The text of the IRI.
    pub fn as_str(&self) -> (text: &str)
        ensures
            text@ == self@,
            is_iri(self@),
    {
        proof {
            use_type_invariant(self);
        }
        self.text.as_str()
    }

    /// A copy of the IRI.
    pub fn duplicate(&self) -> (copy: Iri)
        ensures
            copy@ == self@,
    {
        proof {
            use_type_invariant(self);
        }
        Iri { text: self.text.clone() }
    }
}

impl std::str::FromStr for Iri {
    type Err = SerializationError;

    fn from_str(text: &str) -> (iri: Result<Iri, SerializationError>)
        ensures
            match iri {
                Ok(iri) => iri@ == text@ && is_iri(text@),
                Err(e) => e == SerializationError::WrongShape && !is_iri(text@),
            },
    {
        match Iri::parse(text) {
            Some(iri) => Ok(iri),
            None => Err(SerializationError::WrongShape),
        }
    }
}

} // verus!
