//! Nonce-misuse-resistant authenticated encryption from a keystream cipher, an
//! authenticator and a hash.
//!
//! The authenticator, under the hash of the cipher's key and under the
//! caller's nonce, makes the synthetic nonce from the associated data and the
//! plaintext, and masks it with the tag of the ciphertext. Its tags are set to
//! the length of the cipher's nonce.

use core::marker::PhantomData;
use vstd::prelude::*;

use super::general::mac_key;
use super::general_riv::keyed_cipher;
use super::riv::{
    lemma_riv_opened_length, lemma_riv_round_trip, lemma_riv_sealed_length,
    lemma_riv_sealing_is_injective, riv_opened, riv_parts_fit, riv_sealed,
};
use super::{decrypt_outcome, plain_of, round_trips, AeadCipher};
use crate::auth::{Mac, NonceMac};
use crate::hash::GenericHash;
use crate::hash::Hash as _;
use crate::seqs::{concat, copy_into, copy_range, xor_in_place};
use crate::stream::StreamCipher;
use crate::utils::bytes::wipe;
use crate::utils::Bytes;
use crate::Error;

verus! {

/// The keyed function of the construction: the authenticator under the hashed
/// key and the caller's nonce, with tags as long as the cipher's nonce.
pub open spec fn keyed_mac<C: StreamCipher, M: Mac, H: crate::hash::Hash>(
    key: Seq<u8>,
    nonce: Seq<u8>,
) -> spec_fn(Seq<u8>) -> Seq<u8> {
    |data: Seq<u8>| M::tag(mac_key::<M, H>(key), nonce, C::NONCE_LENGTH as nat, data)
}

/// The parts fit: tags have the length of the cipher's nonce, and the cipher
/// keeps lengths and undoes itself.
pub proof fn lemma_parts_fit<C: StreamCipher, M: Mac, H: crate::hash::Hash>(
    key: Seq<u8>,
    nonce: Seq<u8>,
)
    ensures
        riv_parts_fit(
            keyed_mac::<C, M, H>(key, nonce),
            keyed_cipher::<C>(key),
            C::NONCE_LENGTH as nat,
        ),
{
    let prf = keyed_mac::<C, M, H>(key, nonce);
    let cipher = keyed_cipher::<C>(key);
    assert forall|data: Seq<u8>| #[trigger] prf(data).len() == C::NONCE_LENGTH by {
        M::tag_has_size(mac_key::<M, H>(key), nonce, C::NONCE_LENGTH as nat, data);
    }
    assert forall|n: Seq<u8>, data: Seq<u8>| #[trigger]
        cipher(n, data).len() == data.len() by {
        C::transform_twice(key, n, data);
    }
    assert forall|n: Seq<u8>, data: Seq<u8>| cipher(n, #[trigger] cipher(n, data)) == data by {
        C::transform_twice(key, n, data);
    }
}

/// General RIV authenticated encryption, with an authenticator.
pub struct RivGeneral<C, M, H> {
    cipher: C,
    mac: M,
    hash: PhantomData<H>,
    aad: Vec<u8>,
}

impl<C: StreamCipher, M: NonceMac, H: GenericHash> RivGeneral<C, M, H> {
    /// The associated data that was set.
    pub closed spec fn aad(&self) -> Seq<u8> {
        self.aad@
    }

    /// The lengths of the key, the nonce and the tag: the cipher's key, the
    /// authenticator's nonce and the cipher's nonce.
    pub proof fn lengths()
        ensures
            Self::KEY_LENGTH == C::KEY_LENGTH,
            Self::NONCE_LENGTH == M::NONCE_LENGTH,
            Self::TAG_LENGTH == C::NONCE_LENGTH,
    {
    }

    /// The authenticator, set to `nonce`.
    fn mac_for(&self, nonce: &[u8]) -> (mac: M)
        requires
            self.valid(),
            nonce@.len() == M::NONCE_LENGTH,
        ensures
            mac.valid(),
            mac.key() == mac_key::<M, H>(self.key()),
            mac.nonce() == nonce@,
            mac.size() == C::NONCE_LENGTH,
    {
        let mut mac = self.mac.clone();
        proof {
            M::clone_law(&self.mac, &mac);
        }
        mac.with_nonce(nonce);
        mac
    }

    /// The ciphertext of `data` and its tag.
    fn seal_bytes(&self, nonce: &[u8], aad: &[u8], data: &[u8]) -> (out: Vec<u8>)
        requires
            self.valid(),
            nonce@.len() == M::NONCE_LENGTH,
        ensures
            out@ == Self::sealed(self.key(), nonce@, aad@, data@),
    {
        let mac = self.mac_for(nonce);
        let aad_and_data = concat(aad, data);
        let mut tag = mac.result(aad_and_data.as_slice());
        proof {
            M::tag_has_size(
                mac_key::<M, H>(self.key()),
                nonce@,
                C::NONCE_LENGTH as nat,
                aad@ + data@,
            );
        }
        let mut output = self.cipher.process(tag.as_slice(), data);
        let mask = Bytes(mac.result(output.as_slice()));
        xor_in_place(&mut tag, mask.as_slice());
        output.append(&mut tag);
        output
    }

    /// The plaintext of `data`, which is at least a tag long, if it verifies.
    /// A plaintext that does not verify is wiped.
    fn open_bytes(&self, nonce: &[u8], aad: &[u8], data: &[u8]) -> (out: Option<Vec<u8>>)
        requires
            self.valid(),
            nonce@.len() == M::NONCE_LENGTH,
            data@.len() >= C::NONCE_LENGTH,
        ensures
            out matches Some(plain) ==> Self::opened(self.key(), nonce@, aad@, data@) == Some(
                plain@,
            ),
            out is None ==> Self::opened(self.key(), nonce@, aad@, data@) is None,
    {
        let mac = self.mac_for(nonce);
        let split = data.len() - C::NONCE_LENGTH;
        let ciphertext = copy_range(data, 0, split);
        let tag = copy_range(data, split, data.len());
        let mut siv = Bytes(mac.result(ciphertext.as_slice()));
        proof {
            M::tag_has_size(
                mac_key::<M, H>(self.key()),
                nonce@,
                C::NONCE_LENGTH as nat,
                ciphertext@,
            );
        }
        xor_in_place(&mut siv.0, tag.as_slice());
        let mut output = self.cipher.process(siv.as_slice(), ciphertext.as_slice());
        let aad_and_plain = concat(aad, output.as_slice());
        if mac.verify(aad_and_plain.as_slice(), siv.as_slice()) {
            Some(output)
        } else {
            wipe(&mut output);
            None
        }
    }

    /// Sets the associated data for the calls of `encrypt` and `decrypt` that
    /// follow.
    #[inline]
    pub fn with_aad(&mut self, aad: &[u8]) -> (r: &mut Self)
        requires
            old(self).valid(),
        ensures
            r.valid(),
            r.key() == old(self).key(),
            r.aad() == aad@,
            *final(self) == *final(r),
    {
        self.aad = vstd::slice::slice_to_vec(aad);
        self
    }

    /// Encrypts `data` under `nonce` and the associated data that was set.
    pub fn encrypt(&self, nonce: &[u8], data: &[u8]) -> (out: Vec<u8>)
        requires
            self.valid(),
            nonce@.len() == Self::NONCE_LENGTH,
        ensures
            out@ == Self::sealed(self.key(), nonce@, self.aad(), data@),
    {
        self.seal_bytes(nonce, self.aad.as_slice(), data)
    }

    /// Decrypts `data` under `nonce` and the associated data that was set.
    pub fn decrypt(&self, nonce: &[u8], data: &[u8]) -> (r: Result<Vec<u8>, Error>)
        requires
            self.valid(),
            nonce@.len() == Self::NONCE_LENGTH,
        ensures
            plain_of(r) == decrypt_outcome(
                Self::TAG_LENGTH as nat,
                data@.len(),
                Self::opened(self.key(), nonce@, self.aad(), data@),
            ),
    {
        if data.len() < C::NONCE_LENGTH {
            return Err(Error::Length);
        }
        match self.open_bytes(nonce, self.aad.as_slice(), data) {
            Some(plain) => Ok(plain),
            None => Err(Error::VerificationFailed),
        }
    }
}

impl<C: StreamCipher, M: NonceMac, H: GenericHash> AeadCipher for RivGeneral<C, M, H> {
    const KEY_LENGTH: usize = C::KEY_LENGTH;

    const NONCE_LENGTH: usize = M::NONCE_LENGTH;

    const TAG_LENGTH: usize = C::NONCE_LENGTH;

    /// The authenticator must be one that can be made and that can be set to
    /// tags as long as the cipher's nonce, and the hash must give digests of
    /// the length of the authenticator's key.
    open spec fn supported() -> bool {
        &&& M::supported()
        &&& M::size_allowed(C::NONCE_LENGTH as nat)
        &&& H::accepts(M::KEY_LENGTH as nat, 0)
    }

    closed spec fn valid(&self) -> bool {
        &&& Self::supported()
        &&& self.cipher.key().len() == C::KEY_LENGTH
        &&& self.mac.valid()
        &&& self.mac.key() == mac_key::<M, H>(self.cipher.key())
        &&& self.mac.size() == C::NONCE_LENGTH
    }

    closed spec fn key(&self) -> Seq<u8> {
        self.cipher.key()
    }

    open spec fn sealed(key: Seq<u8>, nonce: Seq<u8>, aad: Seq<u8>, input: Seq<u8>) -> Seq<u8> {
        riv_sealed(keyed_mac::<C, M, H>(key, nonce), keyed_cipher::<C>(key), aad, input)
    }

    open spec fn opened(key: Seq<u8>, nonce: Seq<u8>, aad: Seq<u8>, input: Seq<u8>) -> Option<
        Seq<u8>,
    > {
        riv_opened(
            keyed_mac::<C, M, H>(key, nonce),
            keyed_cipher::<C>(key),
            C::NONCE_LENGTH as nat,
            aad,
            input,
        )
    }

    proof fn sealed_has_length(key: Seq<u8>, nonce: Seq<u8>, aad: Seq<u8>, input: Seq<u8>) {
        lemma_parts_fit::<C, M, H>(key, nonce);
        lemma_riv_sealed_length(
            keyed_mac::<C, M, H>(key, nonce),
            keyed_cipher::<C>(key),
            C::NONCE_LENGTH as nat,
            aad,
            input,
        );
    }

    proof fn opened_has_length(key: Seq<u8>, nonce: Seq<u8>, aad: Seq<u8>, input: Seq<u8>) {
        lemma_parts_fit::<C, M, H>(key, nonce);
        lemma_riv_opened_length(
            keyed_mac::<C, M, H>(key, nonce),
            keyed_cipher::<C>(key),
            C::NONCE_LENGTH as nat,
            aad,
            input,
        );
    }

    /// A fresh cipher has no associated data set.
    fn new(key: &[u8]) -> (cipher: Self)
        ensures
            cipher.aad() == Seq::<u8>::empty(),
    {
        let mut hash = H::default();
        hash.with_size(M::KEY_LENGTH);
        let derived = Bytes(hash.hash(key));
        proof {
            H::digest_has_size(M::KEY_LENGTH as nat, Seq::empty(), key@);
        }
        let mut mac = M::new(derived.as_slice());
        mac.with_size(C::NONCE_LENGTH);
        RivGeneral { cipher: C::new(key), mac, hash: PhantomData, aad: Vec::new() }
    }

    fn seal(&self, nonce: &[u8], aad: &[u8], input: &[u8], output: &mut [u8]) -> (r: Result<
        (),
        Error,
    >) {
        if nonce.len() != M::NONCE_LENGTH || output.len() < C::NONCE_LENGTH || output.len()
            - C::NONCE_LENGTH != input.len() {
            return Err(Error::Length);
        }
        let sealed = self.seal_bytes(nonce, aad, input);
        proof {
            Self::sealed_has_length(self.key(), nonce@, aad@, input@);
        }
        copy_into(output, sealed.as_slice());
        Ok(())
    }

    fn open(&self, nonce: &[u8], aad: &[u8], input: &[u8], output: &mut [u8]) -> (r: Result<
        (),
        Error,
    >) {
        if nonce.len() != M::NONCE_LENGTH || input.len() < C::NONCE_LENGTH || input.len()
            - C::NONCE_LENGTH != output.len() {
            return Err(Error::Length);
        }
        match self.open_bytes(nonce, aad, input) {
            Some(plain) => {
                proof {
                    Self::opened_has_length(self.key(), nonce@, aad@, input@);
                }
                copy_into(output, plain.as_slice());
                Ok(())
            },
            None => Err(Error::VerificationFailed),
        }
    }
}

/// What was sealed opens again, and gives back what was sealed.
pub proof fn riv_general_round_trip<C: StreamCipher, M: NonceMac, H: GenericHash>(
    key: Seq<u8>,
    nonce: Seq<u8>,
    aad: Seq<u8>,
    input: Seq<u8>,
)
    ensures
        RivGeneral::<C, M, H>::opened(
            key,
            nonce,
            aad,
            RivGeneral::<C, M, H>::sealed(key, nonce, aad, input),
        ) == Some(input),
{
    lemma_parts_fit::<C, M, H>(key, nonce);
    lemma_riv_round_trip(
        keyed_mac::<C, M, H>(key, nonce),
        keyed_cipher::<C>(key),
        C::NONCE_LENGTH as nat,
        aad,
        input,
    );
}

/// The construction opens whatever it has sealed.
pub proof fn riv_general_round_trips<C: StreamCipher, M: NonceMac, H: GenericHash>()
    ensures
        round_trips::<RivGeneral<C, M, H>>(),
{
    assert forall|key: Seq<u8>, nonce: Seq<u8>, aad: Seq<u8>, input: Seq<u8>|
        #[trigger] RivGeneral::<C, M, H>::opened(
            key,
            nonce,
            aad,
            RivGeneral::<C, M, H>::sealed(key, nonce, aad, input),
        ) == Some(input) by {
        riv_general_round_trip::<C, M, H>(key, nonce, aad, input);
    }
}

/// Sealing is deterministic and never maps two plaintexts to the same bytes:
/// under one key, nonce and associated data, two sealed messages are equal
/// exactly where their plaintexts are.
pub proof fn riv_general_deterministic<C: StreamCipher, M: NonceMac, H: GenericHash>(
    key: Seq<u8>,
    nonce: Seq<u8>,
    aad: Seq<u8>,
    first: Seq<u8>,
    second: Seq<u8>,
)
    ensures
        (first == second) <==> (RivGeneral::<C, M, H>::sealed(key, nonce, aad, first)
            == RivGeneral::<C, M, H>::sealed(key, nonce, aad, second)),
{
    lemma_parts_fit::<C, M, H>(key, nonce);
    lemma_riv_sealing_is_injective(
        keyed_mac::<C, M, H>(key, nonce),
        keyed_cipher::<C>(key),
        C::NONCE_LENGTH as nat,
        aad,
        first,
        second,
    );
}

} // verus!
