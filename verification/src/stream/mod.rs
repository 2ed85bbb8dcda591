//! Keystream ciphers.
//!
//! A keystream cipher turns a key and a nonce into a transform on byte strings
//! that keeps their length and undoes itself: the same call encrypts and
//! decrypts.

use vstd::prelude::*;

pub mod hc128;
pub mod hc256;
pub mod rabbit;

pub use self::hc128::HC128;
pub use self::hc256::HC256;
pub use self::rabbit::Rabbit;

verus! {

/// `data`, each byte xored with the byte that `stream` gives for its place.
pub open spec fn xor_with(data: Seq<u8>, stream: spec_fn(int) -> u8) -> Seq<u8> {
    Seq::new(data.len(), |i: int| data[i] ^ stream(i))
}

/// Xoring with one stream twice gives the data back.
pub proof fn lemma_xor_with_twice(data: Seq<u8>, stream: spec_fn(int) -> u8)
    ensures
        xor_with(data, stream).len() == data.len(),
        xor_with(xor_with(data, stream), stream) == data,
{
    let once = xor_with(data, stream);
    let twice = xor_with(once, stream);
    assert forall|i: int| 0 <= i < data.len() implies twice[i] == data[i] by {
        let d = data[i];
        let k = stream(i);
        assert((d ^ k) ^ k == d) by (bit_vector);
    }
    assert(twice =~= data);
}

/// Xoring a prefix with a stream gives the prefix of what xoring the whole
/// gives.
pub proof fn lemma_xor_with_prefix(data: Seq<u8>, stream: spec_fn(int) -> u8, k: nat)
    requires
        k <= data.len(),
    ensures
        xor_with(data.subrange(0, k as int), stream) == xor_with(data, stream).subrange(
            0,
            k as int,
        ),
{
    assert(xor_with(data.subrange(0, k as int), stream) =~= xor_with(data, stream).subrange(
        0,
        k as int,
    ));
}

/// A keystream cipher.
pub trait StreamCipher: Sized {
    /// Key length.
    const KEY_LENGTH: usize;

    /// Nonce length.
    const NONCE_LENGTH: usize;

    /// The key that the cipher was made with.
    spec fn key(&self) -> Seq<u8>;

    /// What the cipher makes of `data` under `key` and `nonce`.
    spec fn transform(key: Seq<u8>, nonce: Seq<u8>, data: Seq<u8>) -> Seq<u8>;

    /// The transform keeps the length and undoes itself.
    proof fn transform_twice(key: Seq<u8>, nonce: Seq<u8>, data: Seq<u8>)
        ensures
            Self::transform(key, nonce, data).len() == data.len(),
            Self::transform(key, nonce, Self::transform(key, nonce, data)) == data,
    ;

    /// What the transform makes of the beginning of a message does not depend
    /// on how the message goes on.
    proof fn transform_is_online(key: Seq<u8>, nonce: Seq<u8>, data: Seq<u8>, k: nat)
        requires
            k <= data.len(),
        ensures
            Self::transform(key, nonce, data.subrange(0, k as int)) == Self::transform(
                key,
                nonce,
                data,
            ).subrange(0, k as int),
    ;

    /// A cipher under `key`.
    fn new(key: &[u8]) -> (cipher: Self)
        requires
            key@.len() == Self::KEY_LENGTH,
        ensures
            cipher.key() == key@,
    ;

    /// Encrypts or decrypts `data` under `nonce`.
    fn process(&self, nonce: &[u8], data: &[u8]) -> (out: Vec<u8>)
        requires
            self.key().len() == Self::KEY_LENGTH,
            nonce@.len() == Self::NONCE_LENGTH,
        ensures
            out@ == Self::transform(self.key(), nonce@, data@),
    ;
}

} // verus!
