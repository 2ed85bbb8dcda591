//! The HC-256 stream cipher.

use vstd::prelude::*;

use super::{lemma_xor_with_prefix, lemma_xor_with_twice, xor_with, StreamCipher};
use crate::utils::Bytes;

verus! {

/// Byte `i` of the keystream that HC-256 makes from `key` and `nonce`.
pub uninterp spec fn hc256_keystream(key: Seq<u8>, nonce: Seq<u8>, i: int) -> u8;

/// `hc256::HC256::new(key, nonce)` and then one call of `process` on it. A fresh
/// cipher xors byte `i` of its input with byte `i` of its keystream, which the
/// 32 bytes of key and the 32 bytes of nonce determine.
#[verifier::external_body]
fn hc256_process(key: &[u8], nonce: &[u8], data: &[u8]) -> (out: Vec<u8>)
    requires
        key@.len() == 32,
        nonce@.len() == 32,
    ensures
        out@.len() == data@.len(),
        forall|i: int|
            0 <= i < data@.len() ==> out@[i] == data@[i] ^ hc256_keystream(key@, nonce@, i),
{
    let mut out = vec![0u8; data.len()];
    hc256::HC256::new(key, nonce).process(data, &mut out);
    out
}

/// HC-256.
pub struct HC256 {
    key: Bytes,
}

impl HC256 {
    /// The lengths of the cipher's key and nonce.
    pub proof fn lengths()
        ensures
            Self::KEY_LENGTH == 32,
            Self::NONCE_LENGTH == 32,
    {
    }
}

impl StreamCipher for HC256 {
    const KEY_LENGTH: usize = 32;

    const NONCE_LENGTH: usize = 32;

    closed spec fn key(&self) -> Seq<u8> {
        self.key@
    }

    open spec fn transform(key: Seq<u8>, nonce: Seq<u8>, data: Seq<u8>) -> Seq<u8> {
        xor_with(data, |i: int| hc256_keystream(key, nonce, i))
    }

    proof fn transform_twice(key: Seq<u8>, nonce: Seq<u8>, data: Seq<u8>) {
        lemma_xor_with_twice(data, |i: int| hc256_keystream(key, nonce, i));
    }

    proof fn transform_is_online(key: Seq<u8>, nonce: Seq<u8>, data: Seq<u8>, k: nat) {
        lemma_xor_with_prefix(data, |i: int| hc256_keystream(key, nonce, i), k);
    }

    fn new(key: &[u8]) -> (cipher: Self) {
        HC256 { key: Bytes::new(key) }
    }

    fn process(&self, nonce: &[u8], data: &[u8]) -> (out: Vec<u8>) {
        let out = hc256_process(self.key.as_slice(), nonce, data);
        assert(out@ =~= Self::transform(self.key(), nonce@, data@));
        out
    }
}

} // verus!
