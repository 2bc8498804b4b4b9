//! Values of the vocabulary that come singly or as a list, and what the
//! first of them is as a string or as an IRI.

use crate::bag::PropertyBag;
use crate::hashtag::{AnyString, AnyStringModel};
use crate::iri::Iri;
use crate::text::text_view;
use vstd::prelude::*;

verus! {

/// One value, or a list of values.
#[derive(Debug, PartialEq, Eq)]
pub enum OneOrMany<T> {
    One(T),
    Many(Vec<T>),
}

impl<T> OneOrMany<T> {
    /// The first of the values.
    pub open spec fn first_item(self) -> Option<T> {
        match self {
            OneOrMany::One(item) => Some(item),
            OneOrMany::Many(items) => if items@.len() > 0 {
                Some(items@[0])
            } else {
                None
            },
        }
    }

    /// The first of the values.
    pub fn first(&self) -> (item: Option<&T>)
        ensures
            match item {
                Some(i) => self.first_item() == Some(*i),
                None => self.first_item() is None,
            },
    {
        match self {
            OneOrMany::One(item) => Some(item),
            OneOrMany::Many(items) => if items.len() > 0 {
                Some(&items[0])
            } else {
                None
            },
        }
    }
}

/// Anything that can stand where the vocabulary asks for an object or a
/// link: its IRI, the object itself, or a plain string.
#[derive(Debug, PartialEq, Eq)]
pub enum AnyBase {
    Iri(Iri),
    Base(PropertyBag),
    Text(String),
}

impl AnyBase {
    /// The IRI, where the value is one.
    pub fn as_xsd_any_uri(&self) -> (iri: Option<&Iri>)
        ensures
            match iri {
                Some(i) => *self == AnyBase::Iri(*i),
                None => !(self is Iri),
            },
    {
        match self {
            AnyBase::Iri(iri) => Some(iri),
            _ => None,
        }
    }
}

/// The text of a string of the vocabulary, whatever language it is in.
pub open spec fn text_of(text: AnyStringModel) -> Seq<char> {
    match text {
        AnyStringModel::Plain(t) => t,
        AnyStringModel::Lang { value, language } => value,
    }
}

/// Values of which the first can be read as a string.
pub trait ToAsString {
    /// The text of the first value.
    spec fn as_string(&self) -> Option<Seq<char>>;

    fn to_as_string(&self) -> (text: Option<String>)
        ensures
            text_view(text) == self.as_string(),
    ;
}

impl<'a> ToAsString for OneOrMany<&'a AnyString> {
    open spec fn as_string(&self) -> Option<Seq<char>> {
        match self.first_item() {
            Some(text) => Some(text_of(text@)),
            None => None,
        }
    }

    fn to_as_string(&self) -> (text: Option<String>) {
        match self.first() {
            Some(text) => Some(text.as_str().to_owned()),
            None => None,
        }
    }
}

/// Values of which the first can be read as an IRI.
pub trait ToAsUri {
    /// The text of the first value, where that is an IRI.
    spec fn as_uri(&self) -> Option<Seq<char>>;

    fn to_as_uri(&self) -> (text: Option<String>)
        ensures
            text_view(text) == self.as_uri(),
    ;
}

impl ToAsUri for OneOrMany<AnyBase> {
    open spec fn as_uri(&self) -> Option<Seq<char>> {
        match self.first_item() {
            Some(AnyBase::Iri(iri)) => Some(iri@),
            _ => None,
        }
    }

    fn to_as_uri(&self) -> (text: Option<String>) {
        match self.first() {
            Some(item) => match item.as_xsd_any_uri() {
                Some(iri) => Some(iri.as_str().to_owned()),
                None => None,
            },
            None => None,
        }
    }
}

} // verus!
