//! Secret-key authentication.
//!
//! An authenticator is a key, a nonce (empty until one is set) and the length
//! of its tags; a tag is a function of these three and of the message.

use vstd::prelude::*;

use crate::utils::bytes::constant_time_eq;

pub mod qhmac;

pub use self::qhmac::HMAC;

verus! {

/// A message authentication code.
pub trait Mac: Sized + Clone {
    /// Key length.
    const KEY_LENGTH: usize;

    /// Tag length.
    const TAG_LENGTH: usize;

    /// Whether the parts that the authenticator is built from fit together, so
    /// that one can be made at all.
    spec fn supported() -> bool;

    /// Whether this authenticator is in a state in which it can make tags.
    spec fn valid(&self) -> bool;

    /// The key.
    spec fn key(&self) -> Seq<u8>;

    /// The nonce; empty until one is set.
    spec fn nonce(&self) -> Seq<u8>;

    /// The length of the tags that this authenticator makes.
    spec fn size(&self) -> nat;

    /// The tag of `data`, `size` bytes long, under `key` and `nonce`.
    spec fn tag(key: Seq<u8>, nonce: Seq<u8>, size: nat, data: Seq<u8>) -> Seq<u8>;

    /// A tag has the length that the authenticator was set to.
    proof fn tag_has_size(key: Seq<u8>, nonce: Seq<u8>, size: nat, data: Seq<u8>)
        ensures
            Self::tag(key, nonce, size, data).len() == size,
    ;

    /// A clone authenticates as the authenticator that it was made from.
    proof fn clone_law(a: &Self, b: &Self)
        requires
            cloned::<Self>(*a, *b),
        ensures
            b.valid() == a.valid(),
            b.key() == a.key(),
            b.nonce() == a.nonce(),
            b.size() == a.size(),
    ;

    /// An authenticator under `key`, with no nonce, for tags of the full
    /// length.
    fn new(key: &[u8]) -> (mac: Self)
        requires
            Self::supported(),
            key@.len() == Self::KEY_LENGTH,
        ensures
            mac.valid(),
            mac.key() == key@,
            mac.nonce() == Seq::<u8>::empty(),
            mac.size() == Self::TAG_LENGTH,
    ;

    /// The tag of `data`.
    fn result(&self, data: &[u8]) -> (tag: Vec<u8>)
        requires
            self.valid(),
        ensures
            tag@ == Self::tag(self.key(), self.nonce(), self.size(), data@),
    ;

    /// Whether `tag` is the tag of `data`. The comparison takes the same time
    /// wherever the two differ.
    fn verify(&self, data: &[u8], tag: &[u8]) -> (ok: bool)
        requires
            self.valid(),
        ensures
            ok == (tag@ == Self::tag(self.key(), self.nonce(), self.size(), data@)),
    {
        let expected = self.result(data);
        constant_time_eq(expected.as_slice(), tag)
    }
}

/// An authenticator that takes a nonce.
pub trait NonceMac: Mac {
    /// Nonce length.
    const NONCE_LENGTH: usize;

    /// Whether the authenticator can be set to tags of `len` bytes.
    spec fn size_allowed(len: nat) -> bool;

    /// Sets the nonce.
    fn with_nonce(&mut self, nonce: &[u8]) -> (r: &mut Self)
        requires
            old(self).valid(),
            nonce@.len() == Self::NONCE_LENGTH,
        ensures
            r.valid(),
            r.key() == old(self).key(),
            r.nonce() == nonce@,
            r.size() == old(self).size(),
            *final(self) == *final(r),
    ;

    /// Sets the length of the tags.
    fn with_size(&mut self, len: usize) -> (r: &mut Self)
        requires
            old(self).valid(),
            Self::size_allowed(len as nat),
        ensures
            r.valid(),
            r.key() == old(self).key(),
            r.nonce() == old(self).nonce(),
            r.size() == len,
            *final(self) == *final(r),
    ;
}

} // verus!
