//! The failures that the library reports.
use vstd::prelude::*;

verus! {

/// Why an operation on an event failed.
#[derive(Clone, Copy, Debug, PartialEq, Eq, Structural)]
pub enum Error {
    /// The signature is not a Schnorr signature over the identifier under the
    /// event's public key.
    InvalidSignature,
    /// The identifier is not the digest of the event's canonical form.
    IdMismatch,
    /// The system clock stands before the start of the Unix epoch.
    ClockError,
    /// The curve arithmetic refused a key: secret bytes that are no scalar of
    /// the group, or public bytes that are no point of the curve.
    SignatureSchemeError,
    /// A number that names no kind of event.
    UnknownKind,
}

impl Error {
    /// The text of the message, as a sequence of characters.
    pub open spec fn text(self) -> Seq<char> {
        match self {
            Error::InvalidSignature => "Signature is invalid"@,
            Error::IdMismatch => "Identifier does not match the event"@,
            Error::ClockError => "System clock is set before the Unix epoch"@,
            Error::SignatureSchemeError => "Malformed or out-of-range key"@,
            Error::UnknownKind => "Unknown kind of event"@,
        }
    }

    /// A message for the user.
    pub fn message(&self) -> (text: String)
        ensures
            text@ == self.text(),
    {
        match self {
            Error::InvalidSignature => "Signature is invalid".to_owned(),
            Error::IdMismatch => "Identifier does not match the event".to_owned(),
            Error::ClockError => "System clock is set before the Unix epoch".to_owned(),
            Error::SignatureSchemeError => "Malformed or out-of-range key".to_owned(),
            Error::UnknownKind => "Unknown kind of event".to_owned(),
        }
    }
}

} // verus!
