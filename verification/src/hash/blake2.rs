//! BLAKE2b.

use vstd::prelude::*;

use super::GenericHash;
use crate::hash::Hash as _;
use crate::utils::Bytes;

verus! {

/// Byte `i` of the BLAKE2b digest of `data`, `size` bytes long, under `key`.
pub uninterp spec fn blake2b_byte(size: nat, key: Seq<u8>, data: Seq<u8>, i: int) -> u8;

/// The BLAKE2b digest of `data`, `size` bytes long, under `key`.
pub open spec fn blake2b_digest(size: nat, key: Seq<u8>, data: Seq<u8>) -> Seq<u8> {
    Seq::new(size, |i: int| blake2b_byte(size, key, data, i))
}

/// `blake2_rfc::blake2b::blake2b(size, key, data)`: the digest, which has the
/// length asked for and is determined by that length, the key and the message.
/// The function takes lengths from 1 to 64 and keys of up to 64 bytes.
#[verifier::external_body]
fn blake2b_hash(size: usize, key: &[u8], data: &[u8]) -> (out: Vec<u8>)
    requires
        1 <= size <= 64,
        key@.len() <= 64,
    ensures
        out@.len() == size,
        forall|i: int| 0 <= i < size ==> out@[i] == blake2b_byte(size as nat, key@, data@, i),
{
    blake2_rfc::blake2b::blake2b(size, key, data).as_bytes().to_vec()
}

/// BLAKE2b, with the output length and the key that were set on it.
pub struct Blake2b {
    outlen: usize,
    key: Bytes,
}

impl Clone for Blake2b {
    fn clone(&self) -> (h: Self)
        ensures
            h.size() == self.size(),
            h.key() == self.key(),
    {
        Blake2b { outlen: self.outlen, key: self.key.clone() }
    }
}

impl Blake2b {
    /// The length of the full digest.
    pub proof fn lengths()
        ensures
            Self::DIGEST_LENGTH == 64,
    {
    }
}

impl crate::hash::Hash for Blake2b {
    const DIGEST_LENGTH: usize = 64;

    closed spec fn size(&self) -> nat {
        self.outlen as nat
    }

    closed spec fn key(&self) -> Seq<u8> {
        self.key@
    }

    /// Digests of 1 to 64 bytes, keys of up to 64 bytes.
    open spec fn accepts(size: nat, key_len: nat) -> bool {
        1 <= size <= 64 && key_len <= 64
    }

    open spec fn digest(size: nat, key: Seq<u8>, data: Seq<u8>) -> Seq<u8> {
        blake2b_digest(size, key, data)
    }

    proof fn digest_has_size(size: nat, key: Seq<u8>, data: Seq<u8>) {
    }

    proof fn clone_law(a: &Self, b: &Self) {
    }

    fn default() -> (h: Self) {
        Blake2b { outlen: 64, key: Bytes::new(&[]) }
    }

    #[inline]
    fn digest_length() -> (n: usize) {
        64
    }

    fn hash(&self, data: &[u8]) -> (d: Vec<u8>) {
        let d = blake2b_hash(self.outlen, self.key.as_slice(), data);
        assert(d@ =~= Self::digest(self.size(), self.key(), data@));
        d
    }
}

impl GenericHash for Blake2b {
    fn with_size(&mut self, nn: usize) -> (r: &mut Self) {
        self.outlen = nn;
        self
    }

    fn with_key(&mut self, key: &[u8]) -> (r: &mut Self) {
        self.key = Bytes::new(key);
        self
    }
}

} // verus!
