//! Events of the nostr protocol: their canonical form, their identifier and
//! their signature.
//!
//! An event names itself by the SHA-256 digest of its canonical form and
//! proves its origin by a Schnorr signature over that digest.
pub mod ascii;
pub mod canonical;
pub mod decimal;
pub mod error;
pub mod event;
pub mod hasher;
pub mod hex;
pub mod json;
pub mod laws;
pub mod signature;
pub mod tags;
pub mod unambiguous;
pub mod util;

pub use error::Error;
pub use event::{Event, Kind, Tag};
pub use signature::KeyPair;
pub use tags::{tags_from_strs, Tags};
pub use util::unix_u32_now;
