//! The signature engine: Schnorr signatures over secp256k1 with x-only
//! public keys, computed by the `secp256k1` crate.
//!
//! Keys, digests and signatures cross this module as plain bytes. What the
//! curve arithmetic makes of them is known to the proofs by name only.
use crate::error::Error;
use secp256k1::schnorrsig;
use secp256k1::{Message, Secp256k1};
use vstd::prelude::*;

verus! {

/// The x-only public key of the key pair that `secp256k1` makes from the
/// secret bytes `secret`, `None` where it refuses them as a secret key.
pub uninterp spec fn x_only_public_key(secret: Seq<u8>) -> Option<Seq<u8>>;

/// Whether `secp256k1` accepts `public_key` as the serialised form of an
/// x-only public key.
pub uninterp spec fn is_x_only_public_key(public_key: Seq<u8>) -> bool;

/// Whether `secp256k1` accepts `signature` as a Schnorr signature over
/// `digest` under the x-only public key serialised as `public_key`. It holds
/// of no bytes that are not such a key.
pub uninterp spec fn schnorr_verifies(
    signature: Seq<u8>,
    digest: Seq<u8>,
    public_key: Seq<u8>,
) -> bool;

/// Calls `KeyPair::from_seckey_slice`, then `PublicKey::from_keypair` and
/// `PublicKey::serialize`. The result is the x-only public key of the secret
/// bytes, `None` where the first call refuses them.
#[verifier::external_body]
fn derive_public_key(secret: &[u8; 32]) -> (derived: Option<[u8; 32]>)
    ensures
        match derived {
            Some(public_key) => x_only_public_key(secret@) == Some(public_key@),
            None => x_only_public_key(secret@) is None,
        },
{
    let secp = Secp256k1::new();
    let keypair = schnorrsig::KeyPair::from_seckey_slice(&secp, secret).ok()?;
    Some(schnorrsig::PublicKey::from_keypair(&secp, &keypair).serialize())
}

/// Calls `PublicKey::from_slice` and tells whether it accepted the bytes.
#[verifier::external_body]
fn parses_as_public_key(public_key: &[u8; 32]) -> (accepted: bool)
    ensures
        accepted == is_x_only_public_key(public_key@),
{
    schnorrsig::PublicKey::from_slice(public_key).is_ok()
}

/// Calls `KeyPair::from_seckey_slice` and `Secp256k1::schnorrsig_sign`,
/// which draws its auxiliary randomness from the thread's generator: the
/// signature that the crate made, `None` where it refused the secret bytes.
/// Nothing is claimed of the signature: it differs from call to call, and
/// the crate does not check what it hands out. (The crate aborts where the
/// curve library reports that it could not sign, which for a key pair that
/// it accepted needs a nonce of zero.)
#[verifier::external_body]
fn schnorr_sign(secret: &[u8; 32], digest: &[u8; 32]) -> Option<[u8; 64]> {
    let secp = Secp256k1::new();
    let keypair = schnorrsig::KeyPair::from_seckey_slice(&secp, secret).ok()?;
    let message = Message::from_slice(digest).ok()?;
    let signature = secp.schnorrsig_sign(&message, &keypair);
    Some(*signature.as_ref())
}

/// Calls `PublicKey::from_slice`, `Signature::from_slice`,
/// `Message::from_slice` and `Secp256k1::schnorrsig_verify`. The result
/// tells whether the bytes are a public key under which the signature
/// verifies.
#[verifier::external_body]
fn schnorr_verify(signature: &[u8; 64], digest: &[u8; 32], public_key: &[u8; 32]) -> (verified:
    bool)
    ensures
        verified == schnorr_verifies(signature@, digest@, public_key@),
{
    match (
        schnorrsig::PublicKey::from_slice(public_key),
        schnorrsig::Signature::from_slice(signature),
        Message::from_slice(digest),
    ) {
        (Ok(key), Ok(signature), Ok(message)) => Secp256k1::new().schnorrsig_verify(
            &signature,
            &message,
            &key,
        ).is_ok(),
        _ => false,
    }
}

/// What a verification comes to, given what the curve arithmetic found:
/// success where the signature verifies; `SignatureSchemeError` where the
/// public bytes are no key at all; `InvalidSignature` otherwise.
pub open spec fn verification_outcome(verifies: bool, key_is_valid: bool) -> Result<(), Error> {
    if verifies {
        Ok(())
    } else if key_is_valid {
        Err(Error::InvalidSignature)
    } else {
        Err(Error::SignatureSchemeError)
    }
}

/// Decides the result of a verification from what the curve arithmetic
/// found.
pub fn decide_verification(verifies: bool, key_is_valid: bool) -> (outcome: Result<(), Error>)
    ensures
        outcome == verification_outcome(verifies, key_is_valid),
{
    if verifies {
        Ok(())
    } else if key_is_valid {
        Err(Error::InvalidSignature)
    } else {
        Err(Error::SignatureSchemeError)
    }
}

/// Verifies `signature` over `digest` under `public_key`.
///
/// A malformed public key is told apart from a signature that does not
/// verify.
pub fn verify(signature: &[u8; 64], digest: &[u8; 32], public_key: &[u8; 32]) -> (outcome: Result<
    (),
    Error,
>)
    ensures
        outcome == verification_outcome(
            schnorr_verifies(signature@, digest@, public_key@),
            is_x_only_public_key(public_key@),
        ),
{
    let verifies = schnorr_verify(signature, digest, public_key);
    let key_is_valid = parses_as_public_key(public_key);
    decide_verification(verifies, key_is_valid)
}

/// A secret key together with its x-only public key.
///
/// A value of this type always holds a pair that belongs together: the only
/// way to make one derives the public key from the secret.
pub struct KeyPair {
    secret: [u8; 32],
    public: [u8; 32],
}

impl KeyPair {
    /// The bytes of the secret key.
    pub closed spec fn secret(&self) -> Seq<u8> {
        self.secret@
    }

    /// The serialised x-only public key.
    pub closed spec fn public(&self) -> Seq<u8> {
        self.public@
    }

    #[verifier::type_invariant]
    spec fn belongs_together(&self) -> bool {
        x_only_public_key(self.secret@) == Some(self.public@)
    }

    /// Makes the key pair of the secret key `secret`.
    ///
    /// Fails with `SignatureSchemeError` exactly where the bytes are no
    /// secret key: zero, or not below the order of the group.
    pub fn from_secret_key(secret: [u8; 32]) -> (made: Result<KeyPair, Error>)
        ensures
            match made {
                Ok(keypair) => keypair.secret() == secret@ && x_only_public_key(secret@) == Some(
                    keypair.public(),
                ),
                Err(error) => error == Error::SignatureSchemeError && x_only_public_key(secret@)
                    is None,
            },
    {
        match derive_public_key(&secret) {
            Some(public) => Ok(KeyPair { secret, public }),
            None => Err(Error::SignatureSchemeError),
        }
    }

    /// The serialised x-only public key of the pair.
    pub fn public_key(&self) -> (public: [u8; 32])
        ensures
            public@ == self.public(),
            x_only_public_key(self.secret()) == Some(self.public()),
    {
        proof {
            use_type_invariant(self);
        }
        self.public
    }

    /// The bytes of the secret key of the pair.
    pub fn secret_key(&self) -> (secret: [u8; 32])
        ensures
            secret@ == self.secret(),
    {
        self.secret
    }
}

/// What a signing comes to, given what the curve arithmetic produced and
/// whether that verifies under the signer's public key: the signature where
/// there is one and it verifies, `SignatureSchemeError` otherwise.
pub open spec fn signing_outcome(produced: Option<[u8; 64]>, verifies: bool) -> Result<
    [u8; 64],
    Error,
> {
    match produced {
        Some(signature) => if verifies {
            Ok(signature)
        } else {
            Err(Error::SignatureSchemeError)
        },
        None => Err(Error::SignatureSchemeError),
    }
}

/// Decides the result of a signing: a signature is handed out only after it
/// has been found to verify.
pub fn decide_signing(produced: Option<[u8; 64]>, verifies: bool) -> (outcome: Result<
    [u8; 64],
    Error,
>)
    ensures
        outcome == signing_outcome(produced, verifies),
{
    match produced {
        Some(signature) => if verifies {
            Ok(signature)
        } else {
            Err(Error::SignatureSchemeError)
        },
        None => Err(Error::SignatureSchemeError),
    }
}

/// Signs `digest` with the secret key of `keypair`.
///
/// The signature is made with fresh auxiliary randomness, so two calls may
/// give different signatures. Whatever is handed out has been verified
/// against the public key of the pair; a signature that fails that check is
/// withheld and reported as `SignatureSchemeError`, the only failure.
pub fn sign(keypair: &KeyPair, digest: &[u8; 32]) -> (outcome: Result<[u8; 64], Error>)
    ensures
        match outcome {
            Ok(signature) => schnorr_verifies(signature@, digest@, keypair.public()),
            Err(error) => error == Error::SignatureSchemeError,
        },
{
    let produced = schnorr_sign(&keypair.secret, digest);
    let verifies = match &produced {
        Some(signature) => schnorr_verify(signature, digest, &keypair.public),
        None => false,
    };
    decide_signing(produced, verifies)
}

} // verus!
