//! The property bag: the ordered mapping from property names to JSON values
//! that stands for one JSON-LD object.

use crate::json::{members_view, Json, JsonValue, Member};
use crate::text::str_equal;
use vstd::prelude::*;

verus! {

/// Why a document could not be taken apart or put together.
#[derive(Clone, Copy, Debug, PartialEq, Eq, Structural)]
pub enum SerializationError {
    /// A property that is required is absent.
    Missing,
    /// A property is present with a value of the wrong shape.
    WrongShape,
    /// A property that is to be written is already present.
    Conflict,
}

/// No two members have the same name.
pub open spec fn distinct_names(m: Seq<(Seq<char>, JsonValue)>) -> bool {
    forall|i: int, j: int| 0 <= i < j < m.len() ==> m[i].0 != m[j].0
}

/// Some member of `m` is named `name`.
pub open spec fn has_name(m: Seq<(Seq<char>, JsonValue)>, name: Seq<char>) -> bool {
    exists|i: int| 0 <= i < m.len() && #[trigger] m[i].0 == name
}

/// The place of a member of `m` that is named `name`.
pub open spec fn place_of(m: Seq<(Seq<char>, JsonValue)>, name: Seq<char>) -> int {
    choose|i: int| 0 <= i < m.len() && #[trigger] m[i].0 == name
}

/// The mapping that a list of members stands for.
pub open spec fn as_map(m: Seq<(Seq<char>, JsonValue)>) -> Map<Seq<char>, JsonValue> {
    Map::new(|name: Seq<char>| has_name(m, name), |name: Seq<char>| m[place_of(m, name)].1)
}

/// `m` without the member named `name`.
pub open spec fn without(m: Seq<(Seq<char>, JsonValue)>, name: Seq<char>) -> Seq<
    (Seq<char>, JsonValue),
> {
    if has_name(m, name) {
        m.remove(place_of(m, name))
    } else {
        m
    }
}

/// `m` with the member named `name` set to `value`: in its place where there
/// is one, at the end where there is none.
pub open spec fn with(m: Seq<(Seq<char>, JsonValue)>, name: Seq<char>, value: JsonValue) -> Seq<
    (Seq<char>, JsonValue),
> {
    if has_name(m, name) {
        m.update(place_of(m, name), (name, value))
    } else {
        m.push((name, value))
    }
}

/// With distinct names, the member at a place is what the mapping gives for
/// its name.
pub proof fn lemma_as_map_at(m: Seq<(Seq<char>, JsonValue)>, i: int)
    requires
        distinct_names(m),
        0 <= i < m.len(),
    ensures
        has_name(m, m[i].0),
        place_of(m, m[i].0) == i,
        as_map(m).dom().contains(m[i].0),
        as_map(m)[m[i].0] == m[i].1,
{
    assert(m[i].0 == m[i].0);
    let j = place_of(m, m[i].0);
    assert(0 <= j < m.len() && m[j].0 == m[i].0);
    assert(j == i);
}

/// What removing a name does to the mapping.
pub proof fn lemma_without(m: Seq<(Seq<char>, JsonValue)>, name: Seq<char>)
    requires
        distinct_names(m),
    ensures
        distinct_names(without(m, name)),
        as_map(without(m, name)) == as_map(m).remove(name),
        !has_name(without(m, name), name),
{
    let r = without(m, name);
    if has_name(m, name) {
        let p = place_of(m, name);
        assert(0 <= p < m.len() && m[p].0 == name);
        assert forall|i: int| 0 <= i < r.len() implies #[trigger] r[i] == m[if i < p {
            i
        } else {
            i + 1
        }] by {}
        assert forall|k: Seq<char>| has_name(r, k) <==> (has_name(m, k) && k != name) by {
            if has_name(r, k) {
                let i = place_of(r, k);
                let j = if i < p { i } else { i + 1 };
                assert(r[i] == m[j]);
                assert(m[j].0 == k);
            }
            if has_name(m, k) && k != name {
                let j = place_of(m, k);
                let i = if j < p { j } else { j - 1 };
                assert(r[i] == m[j]);
                assert(r[i].0 == k);
            }
        }
        assert forall|k: Seq<char>| has_name(r, k) implies r[place_of(r, k)].1 == m[place_of(
            m,
            k,
        )].1 by {
            let i = place_of(r, k);
            let j = if i < p { i } else { i + 1 };
            assert(r[i] == m[j]);
            lemma_as_map_at(m, j);
        }
        assert(as_map(r) =~= as_map(m).remove(name));
    } else {
        assert(as_map(m) =~= as_map(m).remove(name));
    }
}

/// What setting a name does to the mapping.
pub proof fn lemma_with(m: Seq<(Seq<char>, JsonValue)>, name: Seq<char>, value: JsonValue)
    requires
        distinct_names(m),
    ensures
        distinct_names(with(m, name, value)),
        as_map(with(m, name, value)) == as_map(m).insert(name, value),
{
    let r = with(m, name, value);
    let p = if has_name(m, name) { place_of(m, name) } else { m.len() as int };
    if has_name(m, name) {
        assert(0 <= p < m.len() && m[p].0 == name);
    }
    assert(r.len() > p && r[p] == (name, value));
    assert forall|i: int| 0 <= i < r.len() implies #[trigger] r[i].0 == (if i == p {
        name
    } else {
        m[i].0
    }) by {}
    assert(distinct_names(r));
    assert forall|k: Seq<char>| has_name(r, k) <==> (has_name(m, k) || k == name) by {
        if has_name(r, k) {
            let i = place_of(r, k);
            if i != p {
                assert(m[i].0 == k);
            }
        }
        if has_name(m, k) {
            let j = place_of(m, k);
            assert(r[j].0 == k);
        }
        if k == name {
            assert(r[p].0 == k);
        }
    }
    assert forall|k: Seq<char>| has_name(r, k) implies r[place_of(r, k)].1 == (if k == name {
        value
    } else {
        m[place_of(m, k)].1
    }) by {
        let i = place_of(r, k);
        lemma_as_map_at(r, i);
        if k == name {
            assert(r[p].0 == k);
            assert(i == p);
        } else {
            assert(i != p);
            assert(m[i].0 == k);
            lemma_as_map_at(m, i);
        }
    }
    assert(as_map(r) =~= as_map(m).insert(name, value));
}

/// An ordered mapping from property names to JSON values. No name occurs
/// twice.
#[derive(Debug, PartialEq, Eq)]
pub struct PropertyBag {
    entries: Vec<Member>,
}

impl View for PropertyBag {
    type V = Map<Seq<char>, JsonValue>;

    open spec fn view(&self) -> Map<Seq<char>, JsonValue> {
        as_map(self.members())
    }
}

impl PropertyBag {
    #[verifier::type_invariant]
    spec fn wf(self) -> bool {
        distinct_names(members_view(self.entries@))
    }

    /// The members, in order.
    pub closed spec fn members(self) -> Seq<(Seq<char>, JsonValue)> {
        members_view(self.entries@)
    }

    /// The bag without members.
    pub fn new() -> (bag: PropertyBag)
        ensures
            bag.members() == Seq::<(Seq<char>, JsonValue)>::empty(),
            bag@ == Map::<Seq<char>, JsonValue>::empty(),
    {
        let bag = PropertyBag { entries: Vec::new() };
        assert(bag.members() =~= Seq::empty());
        assert(bag@ =~= Map::empty());
        bag
    }

    /// States that no name occurs twice.
    pub fn names_are_distinct(&self)
        ensures
            distinct_names(self.members()),
    {
        proof {
            use_type_invariant(&*self);
        }
    }

    pub fn len(&self) -> (n: usize)
        ensures
            n == self.members().len(),
    {
        self.entries.len()
    }

    fn find(&self, name: &str) -> (at: Option<usize>)
        ensures
            match at {
                Some(i) => i < self.members().len() && self.members()[i as int].0 == name@
                    && i == place_of(self.members(), name@) && has_name(self.members(), name@),
                None => !has_name(self.members(), name@),
            },
    {
        proof {
            use_type_invariant(&*self);
        }
        let mut i: usize = 0;
        while i < self.entries.len()
            invariant
                i <= self.entries@.len(),
                distinct_names(self.members()),
                forall|k: int| 0 <= k < i ==> self.members()[k].0 != name@,
            decreases self.entries.len() - i,
        {
            if str_equal(self.entries[i].name.as_str(), name) {
                proof {
                    lemma_as_map_at(self.members(), i as int);
                }
                return Some(i);
            }
            i += 1;
        }
        None
    }

    /// Whether a member is named `name`.
    pub fn contains_key(&self, name: &str) -> (present: bool)
        ensures
            present == self@.dom().contains(name@),
    {
        self.find(name).is_some()
    }

    /// The value of the member named `name`.
    pub fn get(&self, name: &str) -> (value: Option<&Json>)
        ensures
            match value {
                Some(v) => self@.dom().contains(name@) && v@ == self@[name@],
                None => !self@.dom().contains(name@),
            },
    {
        match self.find(name) {
            Some(i) => Some(&self.entries[i].value),
            None => None,
        }
    }

    /// Takes the member named `name` out of the bag. The other members keep
    /// their order.
    pub fn remove(&mut self, name: &str) -> (value: Option<Json>)
        ensures
            final(self).members() == without(old(self).members(), name@),
            final(self)@ == old(self)@.remove(name@),
            match value {
                Some(v) => old(self)@.dom().contains(name@) && v@ == old(self)@[name@],
                None => !old(self)@.dom().contains(name@),
            },
    {
        proof {
            use_type_invariant(&*self);
            lemma_without(self.members(), name@);
        }
        match self.find(name) {
            Some(i) => {
                let mut entries: Vec<Member> = Vec::new();
                std::mem::swap(&mut entries, &mut self.entries);
                let member = entries.remove(i);
                assert(members_view(entries@) =~= old(self).members().remove(i as int));
                self.entries = entries;
                Some(member.value)
            },
            None => None,
        }
    }

    /// Adds a member at the end, unless one of that name is present: then the
    /// bag stays as it is.
    pub fn insert(&mut self, name: String, value: Json) -> (done: Result<(), SerializationError>)
        ensures
            match done {
                Ok(_) => {
                    &&& !old(self)@.dom().contains(name@)
                    &&& final(self).members() == old(self).members().push((name@, value@))
                    &&& final(self)@ == old(self)@.insert(name@, value@)
                },
                Err(e) => {
                    &&& e == SerializationError::Conflict
                    &&& old(self)@.dom().contains(name@)
                    &&& final(self).members() == old(self).members()
                    &&& final(self)@ == old(self)@
                },
            },
    {
        proof {
            use_type_invariant(&*self);
            lemma_with(self.members(), name@, value@);
        }
        match self.find(name.as_str()) {
            Some(_) => Err(SerializationError::Conflict),
            None => {
                let mut entries: Vec<Member> = Vec::new();
                std::mem::swap(&mut entries, &mut self.entries);
                entries.push(Member { name, value });
                assert(members_view(entries@) =~= old(self).members().push((name@, value@)));
                self.entries = entries;
                Ok(())
            },
        }
    }

    /// Sets the member named `name`, whether or not one is present: in its
    /// place where one is, at the end where none is.
    pub fn set(&mut self, name: String, value: Json)
        ensures
            final(self).members() == with(old(self).members(), name@, value@),
            final(self)@ == old(self)@.insert(name@, value@),
    {
        proof {
            use_type_invariant(&*self);
            lemma_with(self.members(), name@, value@);
        }
        let at = self.find(name.as_str());
        let mut entries: Vec<Member> = Vec::new();
        std::mem::swap(&mut entries, &mut self.entries);
        match at {
            Some(i) => {
                entries.set(i, Member { name, value });
                assert(members_view(entries@) =~= old(self).members().update(
                    i as int,
                    (name@, value@),
                ));
            },
            None => {
                entries.push(Member { name, value });
                assert(members_view(entries@) =~= old(self).members().push((name@, value@)));
            },
        }
        self.entries = entries;
    }

    /// The members, in order.
    pub fn into_members(self) -> (members: Vec<Member>)
        ensures
            members_view(members@) == self.members(),
            distinct_names(members_view(members@)),
    {
        proof {
            use_type_invariant(&self);
        }
        self.entries
    }

    /// The bag of `members`, where no two of them have the same name.
    pub fn from_members(members: Vec<Member>) -> (bag: Option<PropertyBag>)
        ensures
            match bag {
                Some(b) => b.members() == members_view(members@) && distinct_names(
                    members_view(members@),
                ),
                None => !distinct_names(members_view(members@)),
            },
    {
        let mut i: usize = 0;
        while i < members.len()
            invariant
                i <= members.len(),
                forall|a: int, b: int| 0 <= a < b < i ==> members@[a].name@ != members@[b].name@,
            decreases members.len() - i,
        {
            let mut j: usize = 0;
            while j < i
                invariant
                    j <= i < members.len(),
                    forall|a: int| 0 <= a < j ==> members@[a].name@ != members@[i as int].name@,
                decreases i - j,
            {
                if str_equal(members[j].name.as_str(), members[i].name.as_str()) {
                    assert(members_view(members@)[j as int].0 == members_view(members@)[i as int].0);
                    return None;
                }
                j += 1;
            }
            i += 1;
        }
        Some(PropertyBag { entries: members })
    }
}

} // verus!
