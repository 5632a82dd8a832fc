//! Events: the record with its kinds and tags, its identifier, and the
//! construction and validation of whole events.
use crate::canonical::{canonical_form, encode};
use crate::error::Error;
use crate::hasher::{hash, same_digest, sha256_digest};
use crate::signature::{
    is_x_only_public_key, schnorr_verifies, sign, verification_outcome, verify, KeyPair,
};
use crate::util::unix_u32_now;
use vstd::prelude::*;

verus! {

/// Represents the different variants of the kind of content the event
/// message contains.
#[derive(Clone, Copy, Debug, PartialEq, Eq, Structural)]
pub enum Kind {
    /// The content is a stringified JSON object that describes the user who
    /// created the event, with the fields `name`, `about` and `picture`.
    SetMetaData,
    /// The content is a text: a note by the publisher.
    TextNote,
    /// The content is the address of a relay that the publisher recommends
    /// to its followers.
    RecommendServer,
}

impl Kind {
    /// The number that stands for the kind on the wire and in the canonical
    /// form.
    pub open spec fn number(self) -> u8 {
        match self {
            Kind::SetMetaData => 0,
            Kind::TextNote => 1,
            Kind::RecommendServer => 2,
        }
    }

    /// The number that stands for the kind.
    pub fn to_u8(self) -> (number: u8)
        ensures
            number == self.number(),
    {
        match self {
            Kind::SetMetaData => 0,
            Kind::TextNote => 1,
            Kind::RecommendServer => 2,
        }
    }

    /// The kind that `number` stands for, `UnknownKind` where it stands for
    /// none.
    pub fn from_u8(number: u8) -> (kind: Result<Kind, Error>)
        ensures
            match kind {
                Ok(found) => found.number() == number,
                Err(error) => error == Error::UnknownKind && number > 2 && forall|any: Kind|
                    any.number() != number,
            },
    {
        if number == 0 {
            Ok(Kind::SetMetaData)
        } else if number == 1 {
            Ok(Kind::TextNote)
        } else if number == 2 {
            Ok(Kind::RecommendServer)
        } else {
            Err(Error::UnknownKind)
        }
    }
}

/// One tag of an event: an ordered list of strings. The first names what the
/// tag refers to (`p` for a public key, `e` for another event), the others
/// are its arguments. The library encodes tags and does not interpret them.
#[derive(Clone, Debug, PartialEq, Eq)]
pub struct Tag {
    /// The strings of the tag, in order.
    pub values: Vec<String>,
}

impl View for Tag {
    type V = Seq<Seq<char>>;

    open spec fn view(&self) -> Seq<Seq<char>> {
        Seq::new(self.values@.len(), |i: int| self.values@[i]@)
    }
}

/// The strings of each tag.
pub open spec fn tags_view(tags: Seq<Tag>) -> Seq<Seq<Seq<char>>> {
    tags.map_values(|tag: Tag| tag@)
}

/// The identifier of an event with these signed fields: the SHA-256 digest
/// of their canonical form.
pub open spec fn id_of(
    pubkey: Seq<u8>,
    created_at: u32,
    kind: Kind,
    tags: Seq<Seq<Seq<char>>>,
    content: Seq<char>,
) -> Seq<u8> {
    sha256_digest(canonical_form(pubkey, created_at, kind, tags, content))
}

/// Computes the identifier of an event with these signed fields.
pub fn event_id(pubkey: &[u8; 32], created_at: u32, kind: Kind, tags: &Vec<Tag>, content: &str) -> (id:
    [u8; 32])
    ensures
        id@ == id_of(pubkey@, created_at, kind, tags_view(tags@), content@),
{
    let bytes = encode(pubkey, created_at, kind, tags, content);
    hash(bytes.as_slice())
}

/// What a validation comes to, given whether the stated identifier is the
/// digest of the canonical form and what the verification of the signature
/// came to: `IdMismatch` where the identifier differs, whatever the
/// signature; otherwise the outcome of the verification.
pub open spec fn validation_outcome(id_matches: bool, verification: Result<(), Error>) -> Result<
    (),
    Error,
> {
    if id_matches {
        verification
    } else {
        Err(Error::IdMismatch)
    }
}

/// Decides the result of a validation from its two checks.
pub fn decide_validation(id_matches: bool, verification: Result<(), Error>) -> (outcome: Result<
    (),
    Error,
>)
    ensures
        outcome == validation_outcome(id_matches, verification),
{
    if id_matches {
        verification
    } else {
        Err(Error::IdMismatch)
    }
}

/// A single object used for all user posts and messages. Each event holds
/// the content of the message with its metadata, the Schnorr public key of
/// the publisher and the publisher's Schnorr signature over the identifier.
/// The identifier is the SHA-256 digest of the canonical form of the other
/// fields, the signature left out.
///
/// An event is a plain value: what arrives from elsewhere is held as it
/// came, and `verify_signature` tells whether it is what it claims to be.
#[derive(Clone, Debug, PartialEq, Eq)]
pub struct Event {
    /// The SHA-256 digest of the canonical form.
    pub id: [u8; 32],
    /// The x-only public key of the creator of the event.
    pub pubkey: [u8; 32],
    /// Unix time stamp in seconds of the creation of the event.
    pub created_at: u32,
    /// The kind of the content.
    pub kind: Kind,
    /// The tags of the event.
    pub tags: Vec<Tag>,
    /// Arbitrary content.
    pub content: String,
    /// The Schnorr signature over the identifier.
    pub sig: [u8; 64],
}

impl Event {
    /// The canonical form of the signed fields.
    pub open spec fn canonical(&self) -> Seq<u8> {
        canonical_form(
            self.pubkey@,
            self.created_at,
            self.kind,
            tags_view(self.tags@),
            self.content@,
        )
    }

    /// The identifier that the signed fields call for.
    pub open spec fn computed_id(&self) -> Seq<u8> {
        sha256_digest(self.canonical())
    }

    /// What the validation of the event comes to.
    pub open spec fn validation(&self) -> Result<(), Error> {
        validation_outcome(
            self.id@ == self.computed_id(),
            verification_outcome(
                schnorr_verifies(self.sig@, self.id@, self.pubkey@),
                is_x_only_public_key(self.pubkey@),
            ),
        )
    }

    /// Whether the event is what it claims to be: its identifier is the
    /// digest of its canonical form and its signature verifies over that
    /// identifier under its public key.
    pub open spec fn is_valid(&self) -> bool {
        &&& self.id@ == self.computed_id()
        &&& schnorr_verifies(self.sig@, self.id@, self.pubkey@)
    }

    /// Writes the canonical form of the signed fields.
    pub fn canonical_bytes(&self) -> (bytes: Vec<u8>)
        ensures
            bytes@ == self.canonical(),
    {
        encode(&self.pubkey, self.created_at, self.kind, &self.tags, self.content.as_str())
    }

    /// Assembles the event with these fields and this signature, under the
    /// identifier that the fields call for. The signature is taken as it
    /// is.
    pub fn with_signature(
        pubkey: [u8; 32],
        created_at: u32,
        kind: Kind,
        tags: Vec<Tag>,
        content: String,
        sig: [u8; 64],
    ) -> (event: Event)
        ensures
            event.pubkey == pubkey,
            event.created_at == created_at,
            event.kind == kind,
            event.tags == tags,
            event.content == content,
            event.sig == sig,
            event.id@ == event.computed_id(),
    {
        let id = event_id(&pubkey, created_at, kind, &tags, content.as_str());
        Event { id, pubkey, created_at, kind, tags, content, sig }
    }

    /// Creates the event that `keypair` publishes at the time `created_at`:
    /// encodes the fields, hashes the encoding to the identifier and signs
    /// the identifier.
    ///
    /// The only failure is `SignatureSchemeError`, where the signature
    /// engine hands out no signature. An event that is returned is valid.
    pub fn new_at(
        keypair: &KeyPair,
        created_at: u32,
        kind: Kind,
        tags: Vec<Tag>,
        content: String,
    ) -> (created: Result<Event, Error>)
        ensures
            match created {
                Ok(event) => {
                    &&& event.pubkey@ == keypair.public()
                    &&& event.created_at == created_at
                    &&& event.kind == kind
                    &&& event.tags == tags
                    &&& event.content == content
                    &&& event.is_valid()
                    &&& event.validation() == Ok::<(), Error>(())
                },
                Err(error) => error == Error::SignatureSchemeError,
            },
    {
        let pubkey = keypair.public_key();
        let id = event_id(&pubkey, created_at, kind, &tags, content.as_str());
        match sign(keypair, &id) {
            Ok(sig) => Ok(Event { id, pubkey, created_at, kind, tags, content, sig }),
            Err(error) => Err(error),
        }
    }

    /// Creates the event that `keypair` publishes now.
    ///
    /// Fails with `ClockError` where the system clock stands before the
    /// epoch and with `SignatureSchemeError` where the signature engine
    /// hands out no signature. An event that is returned is valid.
    pub fn new(keypair: &KeyPair, kind: Kind, tags: Vec<Tag>, content: String) -> (created: Result<
        Event,
        Error,
    >)
        ensures
            match created {
                Ok(event) => {
                    &&& event.pubkey@ == keypair.public()
                    &&& event.kind == kind
                    &&& event.tags == tags
                    &&& event.content == content
                    &&& event.is_valid()
                    &&& event.validation() == Ok::<(), Error>(())
                },
                Err(error) => error == Error::ClockError || error == Error::SignatureSchemeError,
            },
    {
        match unix_u32_now() {
            Ok(created_at) => Event::new_at(keypair, created_at, kind, tags, content),
            Err(_) => Err(Error::ClockError),
        }
    }

    /// Verify the signature and id (hash) of the message against the public
    /// key of the publisher of the message.
    ///
    /// Recomputes the identifier from the fields and verifies the signature
    /// over the stated identifier. Both checks are made, whatever the first
    /// one finds. Fails with `IdMismatch` where the stated identifier is not
    /// the recomputed one; else with `SignatureSchemeError` where the public
    /// key is malformed and with `InvalidSignature` where the signature does
    /// not verify.
    pub fn verify_signature(&self) -> (outcome: Result<(), Error>)
        ensures
            outcome == self.validation(),
            outcome is Ok <==> self.is_valid(),
    {
        let computed = event_id(
            &self.pubkey,
            self.created_at,
            self.kind,
            &self.tags,
            self.content.as_str(),
        );
        let id_matches = same_digest(&self.id, &computed);
        let verification = verify(&self.sig, &self.id, &self.pubkey);
        decide_validation(id_matches, verification)
    }
}

} // verus!
