//! Hashing.
//!
//! A hasher is a length of output and a key, possibly empty; its digest is a
//! function of these two and of the message.

use vstd::prelude::*;

pub mod blake2;

pub use self::blake2::Blake2b;

verus! {

/// A hash function.
pub trait Hash: Sized + Clone {
    /// The length of the digest of a hasher that nothing was set on.
    const DIGEST_LENGTH: usize;

    /// The length of the digests that this hasher gives.
    spec fn size(&self) -> nat;

    /// The key that this hasher hashes under; empty where none was set.
    spec fn key(&self) -> Seq<u8>;

    /// Whether the function is defined for digests of `size` bytes under a key
    /// of `key_len` bytes.
    spec fn accepts(size: nat, key_len: nat) -> bool;

    /// The digest of `data`, `size` bytes long, under `key`.
    spec fn digest(size: nat, key: Seq<u8>, data: Seq<u8>) -> Seq<u8>;

    /// A digest has the length that was asked for.
    proof fn digest_has_size(size: nat, key: Seq<u8>, data: Seq<u8>)
        ensures
            Self::digest(size, key, data).len() == size,
    ;

    /// A clone hashes as the hasher that it was made from.
    proof fn clone_law(a: &Self, b: &Self)
        requires
            cloned::<Self>(*a, *b),
        ensures
            b.size() == a.size(),
            b.key() == a.key(),
    ;

    /// A hasher with no key, for digests of the full length.
    fn default() -> (h: Self)
        ensures
            h.size() == Self::DIGEST_LENGTH,
            h.key() == Seq::<u8>::empty(),
    ;

    /// Digest length.
    fn digest_length() -> (n: usize)
        ensures
            n == Self::DIGEST_LENGTH,
    ;

    /// The digest of `data`.
    fn hash(&self, data: &[u8]) -> (d: Vec<u8>)
        requires
            Self::accepts(self.size(), self.key().len()),
        ensures
            d@ == Self::digest(self.size(), self.key(), data@),
    ;
}

/// A hash function whose output length and key can be set.
pub trait GenericHash: Hash {
    /// Sets the output length.
    fn with_size(&mut self, nn: usize) -> (r: &mut Self)
        ensures
            r.size() == nn,
            r.key() == old(self).key(),
            *final(self) == *final(r),
    ;

    /// Sets the key.
    fn with_key(&mut self, key: &[u8]) -> (r: &mut Self)
        ensures
            r.size() == old(self).size(),
            r.key() == key@,
            *final(self) == *final(r),
    ;
}

} // verus!
