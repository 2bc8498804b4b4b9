//! Identifiers: the names of actors, objects and activities.

use vstd::prelude::*;

verus! {

/// The name of a resource. An identifier is compared by its text and is not
/// changed once it is made.
#[derive(Debug, PartialEq, Eq, Hash)]
pub struct Id(String);

impl View for Id {
    type V = Seq<char>;

    closed spec fn view(&self) -> Seq<char> {
        self.0@
    }
}

impl Id {
    pub fn new(id: &str) -> (out: Id)
        ensures
            out@ == id@,
    {
        Id(id.to_owned())
    }

    /// The text of the identifier.
    pub fn as_str(&self) -> (text: &str)
        ensures
            text@ == self@,
    {
        self.0.as_str()
    }

    /// The text of the identifier.
    pub fn into_string(self) -> (text: String)
        ensures
            text@ == self@,
    {
        self.0
    }

    /// Whether two identifiers name the same resource.
    pub fn same_as(&self, other: &Id) -> (same: bool)
        ensures
            same == (self@ == other@),
    {
        self.0 == other.0
    }
}

impl Clone for Id {
    fn clone(&self) -> (out: Id)
        ensures
            out@ == self@,
    {
        Id(self.0.clone())
    }
}

impl AsRef<str> for Id {
    fn as_ref(&self) -> (text: &str)
        ensures
            text@ == self@,
    {
        self.0.as_str()
    }
}

/// What can be turned into an identifier.
pub trait IntoId {
    fn into_id(self) -> Id;
}

impl IntoId for Id {
    fn into_id(self) -> (id: Id)
        ensures
            id == self,
    {
        self
    }
}

} // verus!
