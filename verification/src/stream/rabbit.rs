//! The Rabbit stream cipher.

use vstd::prelude::*;

use super::{lemma_xor_with_prefix, lemma_xor_with_twice, xor_with, StreamCipher};
use crate::utils::Bytes;

verus! {

/// Byte `i` of the keystream that Rabbit makes from `key` and `nonce`.
pub uninterp spec fn rabbit_keystream(key: Seq<u8>, nonce: Seq<u8>, i: int) -> u8;

/// `rabbit::Rabbit::new_iv(key, nonce)` and then one call of `encrypt` on it,
/// which xors byte `i` of its input with byte `i` of the keystream that the
/// 16 bytes of key and the 8 bytes of nonce determine.
#[verifier::external_body]
fn rabbit_process(key: &[u8], nonce: &[u8], data: &[u8]) -> (out: Vec<u8>)
    requires
        key@.len() == 16,
        nonce@.len() == 8,
    ensures
        out@.len() == data@.len(),
        forall|i: int|
            0 <= i < data@.len() ==> out@[i] == data@[i] ^ rabbit_keystream(key@, nonce@, i),
{
    let mut out = vec![0u8; data.len()];
    rabbit::Rabbit::new_iv(&key.into(), &nonce.into()).encrypt(data, &mut out);
    out
}

/// Rabbit.
pub struct Rabbit {
    key: Bytes,
}

impl Rabbit {
    /// The lengths of the cipher's key and nonce.
    pub proof fn lengths()
        ensures
            Self::KEY_LENGTH == 16,
            Self::NONCE_LENGTH == 8,
    {
    }
}

impl StreamCipher for Rabbit {
    const KEY_LENGTH: usize = 16;

    const NONCE_LENGTH: usize = 8;

    closed spec fn key(&self) -> Seq<u8> {
        self.key@
    }

    open spec fn transform(key: Seq<u8>, nonce: Seq<u8>, data: Seq<u8>) -> Seq<u8> {
        xor_with(data, |i: int| rabbit_keystream(key, nonce, i))
    }

    proof fn transform_twice(key: Seq<u8>, nonce: Seq<u8>, data: Seq<u8>) {
        lemma_xor_with_twice(data, |i: int| rabbit_keystream(key, nonce, i));
    }

    proof fn transform_is_online(key: Seq<u8>, nonce: Seq<u8>, data: Seq<u8>, k: nat) {
        lemma_xor_with_prefix(data, |i: int| rabbit_keystream(key, nonce, i), k);
    }

    fn new(key: &[u8]) -> (cipher: Self) {
        Rabbit { key: Bytes::new(key) }
    }

    fn process(&self, nonce: &[u8], data: &[u8]) -> (out: Vec<u8>) {
        let out = rabbit_process(self.key.as_slice(), nonce, data);
        assert(out@ =~= Self::transform(self.key(), nonce@, data@));
        out
    }
}

} // verus!
