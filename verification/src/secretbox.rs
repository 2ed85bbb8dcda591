//! Secret boxes: authenticated encryption under a nonce that the box makes
//! itself and carries in front of the ciphertext.
//!
//! The nonce is also the associated data, so that a box whose nonce was
//! exchanged for another does not open.

use core::marker::PhantomData;
use vstd::prelude::*;

use crate::aead::{plain_of, round_trips, AeadCipher};
use crate::seqs::{concat, copy_range, zeros};
use crate::utils::nonce::{GenNonce, SystemRng};
use crate::Error;

verus! {

/// The box that holds `data` under `nonce`: the nonce, then what the cipher
/// seals with the nonce as associated data.
pub open spec fn boxed<AE: AeadCipher>(key: Seq<u8>, nonce: Seq<u8>, data: Seq<u8>) -> Seq<u8> {
    nonce + AE::sealed(key, nonce, nonce, data)
}

/// What opening a box gives: a length error where the box is shorter than a
/// nonce and a tag, a failed verification where what follows the nonce does
/// not verify under it, else the plaintext.
pub open spec fn unboxed<AE: AeadCipher>(key: Seq<u8>, data: Seq<u8>) -> Result<Seq<u8>, Error> {
    if data.len() < AE::NONCE_LENGTH + AE::TAG_LENGTH {
        Err(Error::Length)
    } else {
        let nonce = data.subrange(0, AE::NONCE_LENGTH as int);
        let rest = data.subrange(AE::NONCE_LENGTH as int, data.len() as int);
        match AE::opened(key, nonce, nonce, rest) {
            Some(plain) => Ok(plain),
            None => Err(Error::VerificationFailed),
        }
    }
}

/// Whether a box for `length` bytes of data fits in memory.
pub open spec fn box_fits<AE: AeadCipher>(length: nat) -> bool {
    length + AE::NONCE_LENGTH + AE::TAG_LENGTH <= usize::MAX
}

/// Secret boxes over the authenticated cipher `AE`.
pub struct SecretBox<AE>(PhantomData<AE>);

impl<AE: AeadCipher> SecretBox<AE> {
    /// Seals `data` in a box under a nonce drawn from the system's generator.
    #[inline]
    pub fn seal(rng: &mut SystemRng, key: &[u8], data: &[u8]) -> (out: Vec<u8>)
        requires
            AE::supported(),
            key@.len() == AE::KEY_LENGTH,
            box_fits::<AE>(data@.len()),
        ensures
            out@.len() == AE::NONCE_LENGTH + data@.len() + AE::TAG_LENGTH,
            out@ == boxed::<AE>(key@, out@.subrange(0, AE::NONCE_LENGTH as int), data@),
    {
        Self::seal_with_nonce(rng, key, data)
    }

    /// Seals `data` in a box under the next nonce of `rng`, which is asked
    /// once: the box begins with the nonce that `rng` gives.
    pub fn seal_with_nonce<G: GenNonce>(rng: &mut G, key: &[u8], data: &[u8]) -> (out: Vec<u8>)
        requires
            AE::supported(),
            key@.len() == AE::KEY_LENGTH,
            box_fits::<AE>(data@.len()),
            old(rng).can_fill(AE::NONCE_LENGTH as nat),
        ensures
            out@.len() == AE::NONCE_LENGTH + data@.len() + AE::TAG_LENGTH,
            G::fills(
                *old(rng),
                *final(rng),
                zeros(AE::NONCE_LENGTH as nat),
                out@.subrange(0, AE::NONCE_LENGTH as int),
            ),
            out@ == boxed::<AE>(key@, out@.subrange(0, AE::NONCE_LENGTH as int), data@),
    {
        let nonce = rng.gen(AE::NONCE_LENGTH);
        let out = Self::seal_under(key, nonce.as_slice(), data);
        proof {
            AE::sealed_has_length(key@, nonce@, nonce@, data@);
            assert(out@.subrange(0, AE::NONCE_LENGTH as int) =~= nonce@);
        }
        out
    }

    /// Seals `data` in a box under `nonce`.
    pub fn seal_under(key: &[u8], nonce: &[u8], data: &[u8]) -> (out: Vec<u8>)
        requires
            AE::supported(),
            key@.len() == AE::KEY_LENGTH,
            nonce@.len() == AE::NONCE_LENGTH,
            box_fits::<AE>(data@.len()),
        ensures
            out@ == boxed::<AE>(key@, nonce@, data@),
    {
        let cipher = AE::new(key);
        let sealed_length = data.len() + AE::TAG_LENGTH;
        let mut sealed = vec![0u8; sealed_length];
        let r = cipher.seal(nonce, nonce, data, sealed.as_mut_slice());
        assert(r is Ok);
        concat(nonce, sealed.as_slice())
    }

    /// Opens a box.
    pub fn open(key: &[u8], data: &[u8]) -> (r: Result<Vec<u8>, Error>)
        requires
            AE::supported(),
            key@.len() == AE::KEY_LENGTH,
        ensures
            plain_of(r) == unboxed::<AE>(key@, data@),
    {
        if data.len() < AE::NONCE_LENGTH || data.len() - AE::NONCE_LENGTH < AE::TAG_LENGTH {
            return Err(Error::Length);
        }
        let nonce = copy_range(data, 0, AE::NONCE_LENGTH);
        let rest = copy_range(data, AE::NONCE_LENGTH, data.len());
        let cipher = AE::new(key);
        let plain_length = rest.len() - AE::TAG_LENGTH;
        let mut plain = vec![0u8; plain_length];
        match cipher.open(nonce.as_slice(), nonce.as_slice(), rest.as_slice(), plain.as_mut_slice()) {
            Ok(()) => Ok(plain),
            Err(e) => Err(e),
        }
    }
}

/// A box opens again under the key that sealed it, and gives back what was
/// put in, wherever the cipher opens what it has sealed.
pub proof fn secretbox_round_trip<AE: AeadCipher>(key: Seq<u8>, nonce: Seq<u8>, data: Seq<u8>)
    requires
        round_trips::<AE>(),
        nonce.len() == AE::NONCE_LENGTH,
    ensures
        unboxed::<AE>(key, boxed::<AE>(key, nonce, data)) == Ok::<Seq<u8>, Error>(data),
{
    let sealed = AE::sealed(key, nonce, nonce, data);
    let whole = nonce + sealed;
    AE::sealed_has_length(key, nonce, nonce, data);
    assert(whole.subrange(0, AE::NONCE_LENGTH as int) =~= nonce);
    assert(whole.subrange(AE::NONCE_LENGTH as int, whole.len() as int) =~= sealed);
    assert(AE::opened(key, nonce, nonce, AE::sealed(key, nonce, nonce, data)) == Some(data));
}

/// A box is as long as a nonce, the data and a tag together.
pub proof fn boxed_has_length<AE: AeadCipher>(key: Seq<u8>, nonce: Seq<u8>, data: Seq<u8>)
    ensures
        boxed::<AE>(key, nonce, data).len() == nonce.len() + data.len() + AE::TAG_LENGTH,
{
    AE::sealed_has_length(key, nonce, nonce, data);
}

} // verus!
