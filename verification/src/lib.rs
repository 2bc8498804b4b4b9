//! The federation delivery core of a publishing server that speaks
//! ActivityPub.
//!
//! * `json`, `bag`, `render`: JSON documents as plain values, the property bag
//!   of one object, and the compact text of a document.
//! * `vocab`, `composite`, `hashtag`, `legacy`, `one_or_many`, `iri`, `id`:
//!   the typed extensions of the vocabulary. An extension takes the properties
//!   that it claims out of a bag and puts them back; what it does not claim
//!   passes through untouched.
//! * `context`: the canonical JSON-LD context and the envelope that attaches
//!   it to a document.
//! * `negotiate`: whether a request asks for the protocol representation.
//! * `target`, `sign`, `broadcast`: the destinations of a broadcast and the
//!   signed requests that carry a document to them. The requests are handed
//!   to the caller, who sends them.
//! * `text`, `base64`: strings and bytes.

pub mod bag;
pub mod base64;
pub mod broadcast;
pub mod composite;
pub mod context;
pub mod hashtag;
pub mod id;
pub mod iri;
pub mod json;
pub mod legacy;
pub mod negotiate;
pub mod one_or_many;
pub mod render;
pub mod sign;
pub mod target;
pub mod text;
pub mod vocab;

pub use bag::{PropertyBag, SerializationError};
pub use broadcast::{
    broadcast, broadcast07, BodyDigest, BroadcastError, Delivery, DeliveryTarget, Dispatch,
    Recipient, Skipped,
};
pub use composite::{Composite, Extension, ExtensionKind};
pub use context::{
    context, ActivityStream, IntoJson, Rendered, ACTIVITY_CONTENT_TYPE, AP_CONTENT_TYPE,
    CONTEXT_URL, PUBLIC_VISIBILITY,
};
pub use hashtag::{AnyString, AsHashtag, Hashtag07, HashtagExt, HashtagType07};
pub use id::{Id, IntoId};
pub use iri::Iri;
pub use json::{Json, JsonValue, Member};
pub use legacy::{ApSignature, Hashtag, HashtagType, Licensed, PropertyError, PublicKey};
pub use negotiate::{ap_accept_header, ApRequest, Negotiation};
pub use one_or_many::{AnyBase, OneOrMany, ToAsString, ToAsUri};
pub use sign::{Header, SignatureError, Signer};
pub use target::{DestinationError, RequestTarget, UrlParts};
pub use vocab::{ActorSource, ApSignature07, Licensed07, PublicKey07, Source, UnparsedExtension};
