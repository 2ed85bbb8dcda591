//! Nonce-misuse-resistant authenticated encryption from a keystream cipher and
//! a keyed hash.
//!
//! The hash, keyed with the caller's nonce, makes the synthetic nonce from the
//! associated data and the plaintext, and masks it with what it makes of the
//! ciphertext. The tag is as long as the cipher's nonce.

use vstd::prelude::*;

use super::riv::{
    lemma_riv_opened_length, lemma_riv_round_trip, lemma_riv_sealed_length,
    lemma_riv_sealing_is_injective, riv_opened, riv_parts_fit, riv_sealed,
};
use super::{decrypt_outcome, plain_of, round_trips, AeadCipher};
use crate::hash::GenericHash;
use crate::hash::Hash as _;
use crate::seqs::{concat, copy_into, copy_range, xor_in_place};
use crate::stream::StreamCipher;
use crate::utils::bytes::{constant_time_eq, wipe};
use crate::utils::Bytes;
use crate::Error;

verus! {

/// The keyed function of the construction: the hash under the caller's nonce,
/// with digests as long as the cipher's nonce.
pub open spec fn keyed_hash<C: StreamCipher, H: crate::hash::Hash>(nonce: Seq<u8>) -> spec_fn(
    Seq<u8>,
) -> Seq<u8> {
    |data: Seq<u8>| H::digest(C::NONCE_LENGTH as nat, nonce, data)
}

/// The cipher under `key`, as a function of nonce and data.
pub open spec fn keyed_cipher<C: StreamCipher>(key: Seq<u8>) -> spec_fn(Seq<u8>, Seq<u8>) -> Seq<
    u8,
> {
    |nonce: Seq<u8>, data: Seq<u8>| C::transform(key, nonce, data)
}

/// The parts fit: digests have the tag's length, and the cipher keeps lengths
/// and undoes itself.
pub proof fn lemma_parts_fit<C: StreamCipher, H: crate::hash::Hash>(key: Seq<u8>, nonce: Seq<u8>)
    ensures
        riv_parts_fit(keyed_hash::<C, H>(nonce), keyed_cipher::<C>(key), C::NONCE_LENGTH as nat),
{
    let prf = keyed_hash::<C, H>(nonce);
    let cipher = keyed_cipher::<C>(key);
    assert forall|data: Seq<u8>| #[trigger] prf(data).len() == C::NONCE_LENGTH by {
        H::digest_has_size(C::NONCE_LENGTH as nat, nonce, data);
    }
    assert forall|n: Seq<u8>, data: Seq<u8>| #[trigger]
        cipher(n, data).len() == data.len() by {
        C::transform_twice(key, n, data);
    }
    assert forall|n: Seq<u8>, data: Seq<u8>| cipher(n, #[trigger] cipher(n, data)) == data by {
        C::transform_twice(key, n, data);
    }
}

/// General RIV authenticated encryption.
pub struct GeneralRiv<C, H> {
    cipher: C,
    aad: Vec<u8>,
    hash: H,
}

impl<C: StreamCipher, H: GenericHash> GeneralRiv<C, H> {
    /// The associated data that was set.
    pub closed spec fn aad(&self) -> Seq<u8> {
        self.aad@
    }

    /// The lengths of the key, the nonce and the tag: the cipher's key, and
    /// twice the cipher's nonce.
    pub proof fn lengths()
        ensures
            Self::KEY_LENGTH == C::KEY_LENGTH,
            Self::NONCE_LENGTH == C::NONCE_LENGTH,
            Self::TAG_LENGTH == C::NONCE_LENGTH,
    {
    }

    /// The hash, keyed with `nonce`.
    fn hash_for(&self, nonce: &[u8]) -> (hash: H)
        requires
            self.valid(),
        ensures
            hash.size() == C::NONCE_LENGTH,
            hash.key() == nonce@,
    {
        let mut hash = self.hash.clone();
        proof {
            H::clone_law(&self.hash, &hash);
        }
        hash.with_key(nonce);
        hash
    }

    /// The ciphertext of `data` and its tag.
    fn seal_bytes(&self, nonce: &[u8], aad: &[u8], data: &[u8]) -> (out: Vec<u8>)
        requires
            self.valid(),
            nonce@.len() == C::NONCE_LENGTH,
        ensures
            out@ == Self::sealed(self.key(), nonce@, aad@, data@),
    {
        let hash = self.hash_for(nonce);
        let aad_and_data = concat(aad, data);
        let mut siv = hash.hash(aad_and_data.as_slice());
        proof {
            H::digest_has_size(C::NONCE_LENGTH as nat, nonce@, aad@ + data@);
        }
        let mut output = self.cipher.process(siv.as_slice(), data);
        let mask = Bytes(hash.hash(output.as_slice()));
        xor_in_place(&mut siv, mask.as_slice());
        output.append(&mut siv);
        output
    }

    /// The plaintext of `data`, which is at least a tag long, if it verifies.
    /// A plaintext that does not verify is wiped.
    fn open_bytes(&self, nonce: &[u8], aad: &[u8], data: &[u8]) -> (out: Option<Vec<u8>>)
        requires
            self.valid(),
            nonce@.len() == C::NONCE_LENGTH,
            data@.len() >= C::NONCE_LENGTH,
        ensures
            out matches Some(plain) ==> Self::opened(self.key(), nonce@, aad@, data@) == Some(
                plain@,
            ),
            out is None ==> Self::opened(self.key(), nonce@, aad@, data@) is None,
    {
        let hash = self.hash_for(nonce);
        let split = data.len() - C::NONCE_LENGTH;
        let ciphertext = copy_range(data, 0, split);
        let tag = copy_range(data, split, data.len());
        let mut siv = Bytes(hash.hash(ciphertext.as_slice()));
        proof {
            H::digest_has_size(C::NONCE_LENGTH as nat, nonce@, ciphertext@);
        }
        xor_in_place(&mut siv.0, tag.as_slice());
        let mut output = self.cipher.process(siv.as_slice(), ciphertext.as_slice());
        let aad_and_plain = concat(aad, output.as_slice());
        let check = Bytes(hash.hash(aad_and_plain.as_slice()));
        if constant_time_eq(check.as_slice(), siv.as_slice()) {
            Some(output)
        } else {
            wipe(&mut output);
            None
        }
    }

    /// Sets the associated data for the calls of `encrypt` and `decrypt` that
    /// follow.
    pub fn with_aad(&mut self, aad: &[u8]) -> (r: &mut Self)
        requires
            old(self).valid(),
        ensures
            r.valid(),
            r.key() == old(self).key(),
            r.aad() == aad@,
            *final(self) == *final(r),
    {
        self.aad = vstd::slice::slice_to_vec(aad);
        self
    }

    /// Encrypts `data` under `nonce` and the associated data that was set.
    pub fn encrypt(&self, nonce: &[u8], data: &[u8]) -> (out: Vec<u8>)
        requires
            self.valid(),
            nonce@.len() == Self::NONCE_LENGTH,
        ensures
            out@ == Self::sealed(self.key(), nonce@, self.aad(), data@),
    {
        self.seal_bytes(nonce, self.aad.as_slice(), data)
    }

    /// Decrypts `data` under `nonce` and the associated data that was set.
    pub fn decrypt(&self, nonce: &[u8], data: &[u8]) -> (r: Result<Vec<u8>, Error>)
        requires
            self.valid(),
            nonce@.len() == Self::NONCE_LENGTH,
        ensures
            plain_of(r) == decrypt_outcome(
                Self::TAG_LENGTH as nat,
                data@.len(),
                Self::opened(self.key(), nonce@, self.aad(), data@),
            ),
    {
        if data.len() < C::NONCE_LENGTH {
            return Err(Error::Length);
        }
        match self.open_bytes(nonce, self.aad.as_slice(), data) {
            Some(plain) => Ok(plain),
            None => Err(Error::VerificationFailed),
        }
    }
}

impl<C: StreamCipher, H: GenericHash> AeadCipher for GeneralRiv<C, H> {
    const KEY_LENGTH: usize = C::KEY_LENGTH;

    const NONCE_LENGTH: usize = C::NONCE_LENGTH;

    const TAG_LENGTH: usize = C::NONCE_LENGTH;

    /// The hash must give digests as long as the cipher's nonce, under a key
    /// of that length.
    open spec fn supported() -> bool {
        H::accepts(C::NONCE_LENGTH as nat, C::NONCE_LENGTH as nat)
    }

    closed spec fn valid(&self) -> bool {
        &&& Self::supported()
        &&& self.cipher.key().len() == C::KEY_LENGTH
        &&& self.hash.size() == C::NONCE_LENGTH
    }

    closed spec fn key(&self) -> Seq<u8> {
        self.cipher.key()
    }

    open spec fn sealed(key: Seq<u8>, nonce: Seq<u8>, aad: Seq<u8>, input: Seq<u8>) -> Seq<u8> {
        riv_sealed(keyed_hash::<C, H>(nonce), keyed_cipher::<C>(key), aad, input)
    }

    open spec fn opened(key: Seq<u8>, nonce: Seq<u8>, aad: Seq<u8>, input: Seq<u8>) -> Option<
        Seq<u8>,
    > {
        riv_opened(
            keyed_hash::<C, H>(nonce),
            keyed_cipher::<C>(key),
            C::NONCE_LENGTH as nat,
            aad,
            input,
        )
    }

    proof fn sealed_has_length(key: Seq<u8>, nonce: Seq<u8>, aad: Seq<u8>, input: Seq<u8>) {
        lemma_parts_fit::<C, H>(key, nonce);
        lemma_riv_sealed_length(
            keyed_hash::<C, H>(nonce),
            keyed_cipher::<C>(key),
            C::NONCE_LENGTH as nat,
            aad,
            input,
        );
    }

    proof fn opened_has_length(key: Seq<u8>, nonce: Seq<u8>, aad: Seq<u8>, input: Seq<u8>) {
        lemma_parts_fit::<C, H>(key, nonce);
        lemma_riv_opened_length(
            keyed_hash::<C, H>(nonce),
            keyed_cipher::<C>(key),
            C::NONCE_LENGTH as nat,
            aad,
            input,
        );
    }

    /// A fresh cipher has no associated data set.
    fn new(key: &[u8]) -> (cipher: Self)
        ensures
            cipher.aad() == Seq::<u8>::empty(),
    {
        let mut hash = H::default();
        hash.with_size(C::NONCE_LENGTH);
        GeneralRiv { cipher: C::new(key), aad: Vec::new(), hash }
    }

    fn seal(&self, nonce: &[u8], aad: &[u8], input: &[u8], output: &mut [u8]) -> (r: Result<
        (),
        Error,
    >) {
        if nonce.len() != C::NONCE_LENGTH || output.len() < C::NONCE_LENGTH || output.len()
            - C::NONCE_LENGTH != input.len() {
            return Err(Error::Length);
        }
        let sealed = self.seal_bytes(nonce, aad, input);
        proof {
            Self::sealed_has_length(self.key(), nonce@, aad@, input@);
        }
        copy_into(output, sealed.as_slice());
        Ok(())
    }

    fn open(&self, nonce: &[u8], aad: &[u8], input: &[u8], output: &mut [u8]) -> (r: Result<
        (),
        Error,
    >) {
        if nonce.len() != C::NONCE_LENGTH || input.len() < C::NONCE_LENGTH || input.len()
            - C::NONCE_LENGTH != output.len() {
            return Err(Error::Length);
        }
        match self.open_bytes(nonce, aad, input) {
            Some(plain) => {
                proof {
                    Self::opened_has_length(self.key(), nonce@, aad@, input@);
                }
                copy_into(output, plain.as_slice());
                Ok(())
            },
            None => Err(Error::VerificationFailed),
        }
    }
}

/// What was sealed opens again, and gives back what was sealed.
pub proof fn general_riv_round_trip<C: StreamCipher, H: GenericHash>(
    key: Seq<u8>,
    nonce: Seq<u8>,
    aad: Seq<u8>,
    input: Seq<u8>,
)
    ensures
        GeneralRiv::<C, H>::opened(
            key,
            nonce,
            aad,
            GeneralRiv::<C, H>::sealed(key, nonce, aad, input),
        ) == Some(input),
{
    lemma_parts_fit::<C, H>(key, nonce);
    lemma_riv_round_trip(
        keyed_hash::<C, H>(nonce),
        keyed_cipher::<C>(key),
        C::NONCE_LENGTH as nat,
        aad,
        input,
    );
}

/// The construction opens whatever it has sealed.
pub proof fn general_riv_round_trips<C: StreamCipher, H: GenericHash>()
    ensures
        round_trips::<GeneralRiv<C, H>>(),
{
    assert forall|key: Seq<u8>, nonce: Seq<u8>, aad: Seq<u8>, input: Seq<u8>|
        #[trigger] GeneralRiv::<C, H>::opened(
            key,
            nonce,
            aad,
            GeneralRiv::<C, H>::sealed(key, nonce, aad, input),
        ) == Some(input) by {
        general_riv_round_trip::<C, H>(key, nonce, aad, input);
    }
}

/// Sealing is deterministic and never maps two plaintexts to the same bytes:
/// under one key, nonce and associated data, two sealed messages are equal
/// exactly where their plaintexts are.
pub proof fn general_riv_deterministic<C: StreamCipher, H: GenericHash>(
    key: Seq<u8>,
    nonce: Seq<u8>,
    aad: Seq<u8>,
    first: Seq<u8>,
    second: Seq<u8>,
)
    ensures
        (first == second) <==> (GeneralRiv::<C, H>::sealed(key, nonce, aad, first) == GeneralRiv::<
            C,
            H,
        >::sealed(key, nonce, aad, second)),
{
    lemma_parts_fit::<C, H>(key, nonce);
    lemma_riv_sealing_is_injective(
        keyed_hash::<C, H>(nonce),
        keyed_cipher::<C>(key),
        C::NONCE_LENGTH as nat,
        aad,
        first,
        second,
    );
}

} // verus!
