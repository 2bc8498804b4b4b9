//! Composite entities: a base object of the vocabulary with typed extensions
//! layered over its property bag.

use crate::bag::{PropertyBag, SerializationError};
use crate::json::JsonValue;
use crate::vocab::{
    put, taken, ActorSource, ActorSourceModel, ApSignature07, ApSignatureModel, Licensed07,
    LicensedModel, UnparsedExtension,
};
use vstd::prelude::*;

verus! {

/// The kinds of typed extension.
#[derive(Clone, Copy, Debug, PartialEq, Eq, Structural)]
pub enum ExtensionKind {
    /// The public key of an actor.
    PublicKey,
    /// The source of the summary of an actor.
    Source,
    /// The licence of a piece of content.
    License,
}

/// One typed extension.
#[derive(Debug, PartialEq, Eq)]
pub enum Extension {
    PublicKey(ApSignature07),
    Source(ActorSource),
    License(Licensed07),
}

/// The model of an `Extension`.
pub enum ExtensionModel {
    PublicKey(ApSignatureModel),
    Source(ActorSourceModel),
    License(LicensedModel),
}

impl View for Extension {
    type V = ExtensionModel;

    open spec fn view(&self) -> ExtensionModel {
        match self {
            Extension::PublicKey(ext) => ExtensionModel::PublicKey(ext@),
            Extension::Source(ext) => ExtensionModel::Source(ext@),
            Extension::License(ext) => ExtensionModel::License(ext@),
        }
    }
}

/// The views of a list of extensions.
pub open spec fn extensions_view(extensions: Seq<Extension>) -> Seq<ExtensionModel> {
    Seq::new(extensions.len(), |i: int| extensions[i]@)
}

/// The names that the extensions of a kind claim.
pub open spec fn claimed_by(kind: ExtensionKind) -> Set<Seq<char>> {
    match kind {
        ExtensionKind::PublicKey => ApSignature07::claimed(),
        ExtensionKind::Source => ActorSource::claimed(),
        ExtensionKind::License => Licensed07::claimed(),
    }
}

/// The properties that an extension writes.
pub open spec fn written(ext: ExtensionModel) -> Map<Seq<char>, JsonValue> {
    match ext {
        ExtensionModel::PublicKey(e) => ApSignature07::encode(e),
        ExtensionModel::Source(e) => ActorSource::encode(e),
        ExtensionModel::License(e) => Licensed07::encode(e),
    }
}

/// What taking an extension of a kind out of a bag gives.
pub open spec fn extend_one(kind: ExtensionKind, bag: Map<Seq<char>, JsonValue>) -> Result<
    (ExtensionModel, Map<Seq<char>, JsonValue>),
    SerializationError,
> {
    match kind {
        ExtensionKind::PublicKey => match taken::<ApSignature07>(bag) {
            Ok(parts) => Ok((ExtensionModel::PublicKey(parts.0), parts.1)),
            Err(e) => Err(e),
        },
        ExtensionKind::Source => match taken::<ActorSource>(bag) {
            Ok(parts) => Ok((ExtensionModel::Source(parts.0), parts.1)),
            Err(e) => Err(e),
        },
        ExtensionKind::License => match taken::<Licensed07>(bag) {
            Ok(parts) => Ok((ExtensionModel::License(parts.0), parts.1)),
            Err(e) => Err(e),
        },
    }
}

/// What putting an extension into a bag gives.
pub open spec fn retract_one(ext: ExtensionModel, bag: Map<Seq<char>, JsonValue>) -> Result<
    Map<Seq<char>, JsonValue>,
    SerializationError,
> {
    match ext {
        ExtensionModel::PublicKey(e) => put::<ApSignature07>(e, bag),
        ExtensionModel::Source(e) => put::<ActorSource>(e, bag),
        ExtensionModel::License(e) => put::<Licensed07>(e, bag),
    }
}

/// What reading a composite gives: the extensions of the given kinds, taken
/// out of the bag one after the other, and what is left of the bag.
pub open spec fn extend_all(kinds: Seq<ExtensionKind>, bag: Map<Seq<char>, JsonValue>) -> Result<
    (Seq<ExtensionModel>, Map<Seq<char>, JsonValue>),
    SerializationError,
>
    decreases kinds.len(),
{
    if kinds.len() == 0 {
        Ok((Seq::empty(), bag))
    } else {
        match extend_all(kinds.drop_last(), bag) {
            Err(e) => Err(e),
            Ok(before) => match extend_one(kinds.last(), before.1) {
                Err(e) => Err(e),
                Ok(parts) => Ok((before.0.push(parts.0), parts.1)),
            },
        }
    }
}

/// What writing a composite gives: the bag with the extensions put into it
/// one after the other. The first conflict ends it.
pub open spec fn retract_all(
    extensions: Seq<ExtensionModel>,
    bag: Map<Seq<char>, JsonValue>,
) -> Result<Map<Seq<char>, JsonValue>, SerializationError>
    decreases extensions.len(),
{
    if extensions.len() == 0 {
        Ok(bag)
    } else {
        match retract_all(extensions.drop_last(), bag) {
            Err(e) => Err(e),
            Ok(mid) => retract_one(extensions.last(), mid),
        }
    }
}

/// Each layer finds in the bag exactly what it would write: nothing that it
/// claims is passed over when it is read.
pub open spec fn reads_exactly(kinds: Seq<ExtensionKind>, bag: Map<Seq<char>, JsonValue>) -> bool
    decreases kinds.len(),
{
    kinds.len() == 0 || (reads_exactly(kinds.drop_last(), bag) && (extend_all(
        kinds.drop_last(),
        bag,
    ) matches Ok(before) && (extend_one(kinds.last(), before.1) matches Ok(parts) && written(
        parts.0,
    ) == before.1.restrict(claimed_by(kinds.last())))))
}

proof fn lemma_extend_one(kind: ExtensionKind, bag: Map<Seq<char>, JsonValue>)
    ensures
        extend_one(kind, bag) matches Ok(parts) ==> parts.1 == bag.remove_keys(claimed_by(kind)),
{
}

proof fn lemma_retract_one(ext: ExtensionModel, bag: Map<Seq<char>, JsonValue>)
    ensures
        retract_one(ext, bag) == (if bag.dom().disjoint(written(ext).dom()) {
            Ok::<Map<Seq<char>, JsonValue>, SerializationError>(
                bag.union_prefer_right(written(ext)),
            )
        } else {
            Err::<Map<Seq<char>, JsonValue>, SerializationError>(SerializationError::Conflict)
        }),
{
}

proof fn lemma_retract_without(
    kinds: Seq<ExtensionKind>,
    bag: Map<Seq<char>, JsonValue>,
    gone: Set<Seq<char>>,
)
    requires
        extend_all(kinds, bag) matches Ok(parts) && gone.subset_of(parts.1.dom()),
        reads_exactly(kinds, bag),
    ensures
        extend_all(kinds, bag) matches Ok(parts) && parts.1.submap_of(bag) && retract_all(
            parts.0,
            parts.1.remove_keys(gone),
        ) == Ok::<Map<Seq<char>, JsonValue>, SerializationError>(bag.remove_keys(gone)),
    decreases kinds.len(),
{
    if kinds.len() > 0 {
        let before = extend_all(kinds.drop_last(), bag)->Ok_0;
        let kind = kinds.last();
        let parts = extend_one(kind, before.1)->Ok_0;
        let claimed = claimed_by(kind);
        let fields = written(parts.0);
        let gone_before = (claimed + gone).intersect(before.1.dom());
        lemma_extend_one(kind, before.1);
        lemma_retract_without(kinds.drop_last(), bag, gone_before);
        let all = before.0.push(parts.0);
        assert(all.drop_last() =~= before.0);
        assert(parts.1.remove_keys(gone) =~= before.1.remove_keys(gone_before));
        let mid = bag.remove_keys(gone_before);
        lemma_retract_one(parts.0, mid);
        assert(mid.dom().disjoint(fields.dom()));
        assert(mid.union_prefer_right(fields) =~= bag.remove_keys(gone));
    } else {
        assert(bag.remove_keys(gone).dom() =~= bag.dom().difference(gone));
    }
}

/// A composite that is read from a bag and written back gives the bag again,
/// with every property that no layer claims untouched, wherever each layer
/// finds in the bag exactly what it would write.
pub proof fn lemma_composite_round_trip(kinds: Seq<ExtensionKind>, bag: Map<Seq<char>, JsonValue>)
    requires
        extend_all(kinds, bag) is Ok,
        reads_exactly(kinds, bag),
    ensures
        extend_all(kinds, bag) matches Ok(parts) && retract_all(parts.0, parts.1) == Ok::<
            Map<Seq<char>, JsonValue>,
            SerializationError,
        >(bag),
{
    let parts = extend_all(kinds, bag)->Ok_0;
    lemma_retract_without(kinds, bag, Set::empty());
    assert(parts.1.remove_keys(Set::empty()) =~= parts.1);
    assert(bag.remove_keys(Set::empty()) =~= bag);
}

/// Reading that fails at one layer fails as a whole, with that layer's
/// reason.
proof fn lemma_extend_all_fails(kinds: Seq<ExtensionKind>, bag: Map<Seq<char>, JsonValue>, n: int)
    requires
        0 <= n <= kinds.len(),
        extend_all(kinds.take(n), bag) is Err,
    ensures
        extend_all(kinds, bag) == extend_all(kinds.take(n), bag),
    decreases kinds.len() - n,
{
    if n < kinds.len() {
        assert(kinds.take(n + 1).drop_last() =~= kinds.take(n));
        lemma_extend_all_fails(kinds, bag, n + 1);
    } else {
        assert(kinds.take(n) =~= kinds);
    }
}

/// Writing that fails at one layer fails as a whole, with that layer's
/// reason.
proof fn lemma_retract_all_fails(
    extensions: Seq<ExtensionModel>,
    bag: Map<Seq<char>, JsonValue>,
    n: int,
)
    requires
        0 <= n <= extensions.len(),
        retract_all(extensions.take(n), bag) is Err,
    ensures
        retract_all(extensions, bag) == retract_all(extensions.take(n), bag),
    decreases extensions.len() - n,
{
    if n < extensions.len() {
        assert(extensions.take(n + 1).drop_last() =~= extensions.take(n));
        lemma_retract_all_fails(extensions, bag, n + 1);
    } else {
        assert(extensions.take(n) =~= extensions);
    }
}

impl Extension {
    /// The kind of the extension.
    pub fn kind(&self) -> (kind: ExtensionKind)
        ensures
            kind == match self@ {
                ExtensionModel::PublicKey(_) => ExtensionKind::PublicKey,
                ExtensionModel::Source(_) => ExtensionKind::Source,
                ExtensionModel::License(_) => ExtensionKind::License,
            },
    {
        match self {
            Extension::PublicKey(_) => ExtensionKind::PublicKey,
            Extension::Source(_) => ExtensionKind::Source,
            Extension::License(_) => ExtensionKind::License,
        }
    }

    /// Takes an extension of the given kind out of the bag. Where that fails
    /// the bag stays as it was.
    pub fn try_from_unparsed(kind: ExtensionKind, unparsed: &mut PropertyBag) -> (out: Result<
        Extension,
        SerializationError,
    >)
        ensures
            match out {
                Ok(ext) => extend_one(kind, old(unparsed)@) == Ok::<
                    (ExtensionModel, Map<Seq<char>, JsonValue>),
                    SerializationError,
                >((ext@, final(unparsed)@)),
                Err(e) => extend_one(kind, old(unparsed)@) == Err::<
                    (ExtensionModel, Map<Seq<char>, JsonValue>),
                    SerializationError,
                >(e) && final(unparsed)@ == old(unparsed)@,
            },
    {
        match kind {
            ExtensionKind::PublicKey => match ApSignature07::try_from_unparsed(unparsed) {
                Ok(ext) => Ok(Extension::PublicKey(ext)),
                Err(e) => Err(e),
            },
            ExtensionKind::Source => match ActorSource::try_from_unparsed(unparsed) {
                Ok(ext) => Ok(Extension::Source(ext)),
                Err(e) => Err(e),
            },
            ExtensionKind::License => match Licensed07::try_from_unparsed(unparsed) {
                Ok(ext) => Ok(Extension::License(ext)),
                Err(e) => Err(e),
            },
        }
    }

    /// Puts the extension into the bag. Where that fails the bag stays as it
    /// was.
    pub fn try_into_unparsed(self, unparsed: &mut PropertyBag) -> (out: Result<
        (),
        SerializationError,
    >)
        ensures
            match out {
                Ok(_) => retract_one(self@, old(unparsed)@) == Ok::<
                    Map<Seq<char>, JsonValue>,
                    SerializationError,
                >(final(unparsed)@),
                Err(e) => retract_one(self@, old(unparsed)@) == Err::<
                    Map<Seq<char>, JsonValue>,
                    SerializationError,
                >(e) && final(unparsed)@ == old(unparsed)@,
            },
    {
        match self {
            Extension::PublicKey(ext) => ext.try_into_unparsed(unparsed),
            Extension::Source(ext) => ext.try_into_unparsed(unparsed),
            Extension::License(ext) => ext.try_into_unparsed(unparsed),
        }
    }
}

/// A base object with its typed extensions, outermost last.
#[derive(Debug, PartialEq, Eq)]
pub struct Composite {
    /// The base object: the properties that no extension claims.
    pub inner: PropertyBag,
    /// The layers, in the order in which they are read and written.
    pub extensions: Vec<Extension>,
}

impl Composite {
    pub fn new(inner: PropertyBag, extensions: Vec<Extension>) -> (composite: Composite)
        ensures
            composite.inner == inner,
            composite.extensions == extensions,
    {
        Composite { inner, extensions }
    }

    /// An actor with its public key.
    pub fn custom_person(actor: PropertyBag, key: ApSignature07) -> (composite: Composite)
        ensures
            composite.inner == actor,
            extensions_view(composite.extensions@) == seq![ExtensionModel::PublicKey(key@)],
    {
        let mut extensions: Vec<Extension> = Vec::new();
        extensions.push(Extension::PublicKey(key));
        assert(extensions_view(extensions@) =~= seq![ExtensionModel::PublicKey(key@)]);
        Composite { inner: actor, extensions }
    }

    /// A group with its public key and the source of its summary.
    pub fn custom_group(actor: PropertyBag, key: ApSignature07, source: ActorSource) -> (composite:
        Composite)
        ensures
            composite.inner == actor,
            extensions_view(composite.extensions@) == seq![
                ExtensionModel::PublicKey(key@),
                ExtensionModel::Source(source@),
            ],
    {
        let mut extensions: Vec<Extension> = Vec::new();
        extensions.push(Extension::PublicKey(key));
        extensions.push(Extension::Source(source));
        assert(extensions_view(extensions@) =~= seq![
            ExtensionModel::PublicKey(key@),
            ExtensionModel::Source(source@),
        ]);
        Composite { inner: actor, extensions }
    }

    /// An article with its licence.
    pub fn licensed_article(article: PropertyBag, license: Licensed07) -> (composite: Composite)
        ensures
            composite.inner == article,
            extensions_view(composite.extensions@) == seq![ExtensionModel::License(license@)],
    {
        let mut extensions: Vec<Extension> = Vec::new();
        extensions.push(Extension::License(license));
        assert(extensions_view(extensions@) =~= seq![ExtensionModel::License(license@)]);
        Composite { inner: article, extensions }
    }

    /// Reads a composite from the bag of a document: one extension of each
    /// of the given kinds, in their order.
    pub fn extends(base: PropertyBag, kinds: &Vec<ExtensionKind>) -> (out: Result<
        Composite,
        SerializationError,
    >)
        ensures
            match out {
                Ok(composite) => extend_all(kinds@, base@) == Ok::<
                    (Seq<ExtensionModel>, Map<Seq<char>, JsonValue>),
                    SerializationError,
                >((extensions_view(composite.extensions@), composite.inner@)),
                Err(e) => extend_all(kinds@, base@) == Err::<
                    (Seq<ExtensionModel>, Map<Seq<char>, JsonValue>),
                    SerializationError,
                >(e),
            },
    {
        let mut inner = base;
        let mut extensions: Vec<Extension> = Vec::new();
        let mut i: usize = 0;
        assert(extensions_view(extensions@) =~= Seq::<ExtensionModel>::empty());
        assert(kinds@.take(0).len() == 0);
        while i < kinds.len()
            invariant
                i <= kinds.len(),
                extend_all(kinds@.take(i as int), base@) == Ok::<
                    (Seq<ExtensionModel>, Map<Seq<char>, JsonValue>),
                    SerializationError,
                >((extensions_view(extensions@), inner@)),
            decreases kinds.len() - i,
        {
            let ghost read = extensions_view(extensions@);
            proof {
                assert(kinds@.take(i + 1).drop_last() =~= kinds@.take(i as int));
            }
            match Extension::try_from_unparsed(kinds[i], &mut inner) {
                Ok(ext) => {
                    extensions.push(ext);
                    assert(extensions_view(extensions@) =~= read.push(ext@));
                },
                Err(e) => {
                    proof {
                        lemma_extend_all_fails(kinds@, base@, i + 1);
                    }
                    return Err(e);
                },
            }
            i += 1;
        }
        assert(kinds@.take(kinds.len() as int) =~= kinds@);
        Ok(Composite { inner, extensions })
    }

    /// Writes the composite back into one bag: the base object with each
    /// extension put into it, in their order.
    pub fn retracts(self) -> (out: Result<PropertyBag, SerializationError>)
        ensures
            match out {
                Ok(bag) => retract_all(extensions_view(self.extensions@), self.inner@) == Ok::<
                    Map<Seq<char>, JsonValue>,
                    SerializationError,
                >(bag@),
                Err(e) => retract_all(extensions_view(self.extensions@), self.inner@) == Err::<
                    Map<Seq<char>, JsonValue>,
                    SerializationError,
                >(e),
            },
    {
        let ghost all = extensions_view(self.extensions@);
        let ghost base = self.inner@;
        let mut inner = self.inner;
        let mut extensions = self.extensions;
        let total = extensions.len();
        let mut i: usize = 0;
        assert(all.take(0) =~= Seq::<ExtensionModel>::empty());
        while extensions.len() > 0
            invariant
                i + extensions@.len() == total,
                all.len() == total,
                all == extensions_view(self.extensions@),
                base == self.inner@,
                extensions_view(extensions@) == all.skip(i as int),
                retract_all(all.take(i as int), base) == Ok::<
                    Map<Seq<char>, JsonValue>,
                    SerializationError,
                >(inner@),
            decreases extensions.len(),
        {
            let ghost rest = extensions@;
            let ghost written_so_far = inner@;
            let ext = extensions.remove(0);
            proof {
                assert(all.take(i + 1).drop_last() =~= all.take(i as int));
                assert(all.take(i + 1).last() == ext@) by {
                    assert(extensions_view(rest)[0] == all.skip(i as int)[0]);
                }
                assert(extensions_view(extensions@) =~= all.skip(i + 1)) by {
                    assert forall|k: int| 0 <= k < extensions@.len() implies extensions_view(
                        extensions@,
                    )[k] == all.skip(i + 1)[k] by {
                        assert(extensions@[k] == rest[k + 1]);
                        assert(extensions_view(rest)[k + 1] == all.skip(i as int)[k + 1]);
                    }
                }
            }
            match ext.try_into_unparsed(&mut inner) {
                Ok(_) => {},
                Err(e) => {
                    proof {
                        assert(retract_all(all.take(i + 1), base) == retract_one(
                            ext@,
                            written_so_far,
                        ));
                        lemma_retract_all_fails(all, base, i + 1);
                    }
                    return Err(e);
                },
            }
            i += 1;
        }
        assert(all.take(i as int) =~= all);
        Ok(inner)
    }
}

} // verus!
