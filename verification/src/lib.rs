//! Composable cryptographic constructions: authenticated encryption built from a
//! keystream cipher, an authenticator and a hash; its nonce-misuse-resistant
//! variants; encryption piece by piece; secret boxes and sealed boxes; and the
//! byte buffers that hold the secrets.
//!
//! The primitives themselves come from other crates. Each is reached through one
//! small function whose contract is believed, not proved, and which says in its
//! documentation what it believes. What a primitive computes is given a name, a
//! function without a body: the contracts say that the same inputs give the same
//! bytes, not which bytes. Everything built on top of the primitives is proved.
//!
//! A type that gives lengths to a trait's constants states them in a proof
//! function `lengths`; a caller that has to know a length calls it.

use vstd::prelude::*;

pub mod aead;
pub mod auth;
pub mod hash;
pub mod kex;
pub mod pwhash;
pub mod sealedbox;
pub mod secretbox;
pub mod seqs;
pub mod sign;
pub mod stream;
pub mod utils;

verus! {

/// The two ways an operation of this library fails.
#[derive(Debug, Clone, Copy, PartialEq, Eq, Structural)]
#[non_exhaustive]
#[must_use]
pub enum Error {
    /// A buffer's length does not match what the construction's fixed
    /// parameters imply.
    Length,
    /// A tag, a synthetic nonce or a key-exchange message did not verify.
    VerificationFailed,
}

impl Error {
    /// The message that belongs to each failure.
    pub fn message(&self) -> (s: &'static str)
        ensures
            s@ == (match *self {
                Error::Length => "Input/Output length does not match"@,
                Error::VerificationFailed => "Fail to pass verification"@,
            }),
    {
        match self {
            Error::Length => "Input/Output length does not match",
            Error::VerificationFailed => "Fail to pass verification",
        }
    }
}

/// A key, message or signature that has a fixed-length encoding as bytes.
pub trait Packing: Sized {
    /// The length of the encoding.
    const BYTES_LENGTH: usize;

    /// The encoding.
    spec fn bytes(&self) -> Seq<u8>;

    /// Every value's encoding has the fixed length.
    proof fn bytes_have_length(&self)
        ensures
            self.bytes().len() == Self::BYTES_LENGTH,
    ;

    /// Hands the encoding to `f` and returns what `f` makes of it.
    fn read_bytes<T, F: FnOnce(&[u8]) -> T>(&self, f: F) -> (out: T)
        requires
            forall|s: &[u8]| s@ == self.bytes() ==> f.requires((s,)),
        ensures
            exists|s: &[u8]| s@ == self.bytes() && f.ensures((s,), out),
    ;

    /// The value whose encoding is `buf`.
    fn from_bytes(buf: &[u8]) -> (r: Self)
        requires
            buf@.len() == Self::BYTES_LENGTH,
        ensures
            r.bytes() == buf@,
    ;
}

} // verus!
