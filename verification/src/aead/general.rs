//! Authenticated encryption from a keystream cipher, an authenticator and a
//! hash: encrypt, then authenticate.
//!
//! The authenticator's key is the hash of the cipher's key; its nonce is the
//! hash of the nonce followed by the associated data; the tag is taken over
//! the associated data followed by the ciphertext.

use core::marker::PhantomData;
use vstd::prelude::*;

use super::{decrypt_outcome, plain_of, round_trips, AeadCipher};
use crate::auth::{Mac, NonceMac};
use crate::hash::GenericHash;
use crate::hash::Hash as _;
use crate::seqs::{concat, copy_into, copy_range};
use crate::stream::StreamCipher;
use crate::utils::Bytes;
use crate::Error;

verus! {

/// The authenticator's key: the master key, hashed to the length that the
/// authenticator takes.
pub open spec fn mac_key<M: Mac, H: crate::hash::Hash>(key: Seq<u8>) -> Seq<u8> {
    H::digest(M::KEY_LENGTH as nat, Seq::empty(), key)
}

/// The authenticator's nonce: the nonce and the associated data, hashed to the
/// length that the authenticator takes.
pub open spec fn mac_nonce<M: NonceMac, H: crate::hash::Hash>(
    nonce: Seq<u8>,
    aad: Seq<u8>,
) -> Seq<u8> {
    H::digest(M::NONCE_LENGTH as nat, Seq::empty(), nonce + aad)
}

/// The tag that belongs to `ciphertext`.
pub open spec fn general_tag<M: NonceMac, H: crate::hash::Hash>(
    key: Seq<u8>,
    nonce: Seq<u8>,
    aad: Seq<u8>,
    ciphertext: Seq<u8>,
) -> Seq<u8> {
    M::tag(
        mac_key::<M, H>(key),
        mac_nonce::<M, H>(nonce, aad),
        M::TAG_LENGTH as nat,
        aad + ciphertext,
    )
}

/// The ciphertext of `input`, followed by its tag.
pub open spec fn general_sealed<C: StreamCipher, M: NonceMac, H: crate::hash::Hash>(
    key: Seq<u8>,
    nonce: Seq<u8>,
    aad: Seq<u8>,
    input: Seq<u8>,
) -> Seq<u8> {
    let ciphertext = C::transform(key, nonce, input);
    ciphertext + general_tag::<M, H>(key, nonce, aad, ciphertext)
}

/// The plaintext of `input`, where `input` ends in the tag that belongs to
/// what stands before it.
pub open spec fn general_opened<C: StreamCipher, M: NonceMac, H: crate::hash::Hash>(
    key: Seq<u8>,
    nonce: Seq<u8>,
    aad: Seq<u8>,
    input: Seq<u8>,
) -> Option<Seq<u8>> {
    if input.len() < M::TAG_LENGTH {
        None
    } else {
        let ciphertext = input.subrange(0, input.len() - M::TAG_LENGTH);
        let tag = input.subrange(input.len() - M::TAG_LENGTH, input.len() as int);
        if tag == general_tag::<M, H>(key, nonce, aad, ciphertext) {
            Some(C::transform(key, nonce, ciphertext))
        } else {
            None
        }
    }
}

/// General authenticated encryption.
pub struct General<C, M, H> {
    cipher: C,
    mac: M,
    hash: PhantomData<H>,
    aad: Vec<u8>,
}

impl<C: StreamCipher, M: NonceMac, H: GenericHash> General<C, M, H> {
    /// The associated data that was set.
    pub closed spec fn aad(&self) -> Seq<u8> {
        self.aad@
    }

    /// The lengths of the key, the nonce and the tag: the cipher's, the
    /// cipher's and the authenticator's.
    pub proof fn lengths()
        ensures
            Self::KEY_LENGTH == C::KEY_LENGTH,
            Self::NONCE_LENGTH == C::NONCE_LENGTH,
            Self::TAG_LENGTH == M::TAG_LENGTH,
    {
    }

    /// The authenticator, set to the nonce that belongs to `nonce` and `aad`.
    fn mac_for(&self, nonce: &[u8], aad: &[u8]) -> (mac: M)
        requires
            self.valid(),
        ensures
            mac.valid(),
            mac.key() == mac_key::<M, H>(self.key()),
            mac.nonce() == mac_nonce::<M, H>(nonce@, aad@),
            mac.size() == M::TAG_LENGTH,
    {
        let nonce_and_aad = concat(nonce, aad);
        let mut hash = H::default();
        hash.with_size(M::NONCE_LENGTH);
        let derived = Bytes(hash.hash(nonce_and_aad.as_slice()));
        proof {
            H::digest_has_size(M::NONCE_LENGTH as nat, Seq::empty(), nonce@ + aad@);
        }
        let mut mac = self.mac.clone();
        proof {
            M::clone_law(&self.mac, &mac);
        }
        mac.with_nonce(derived.as_slice());
        mac
    }

    /// What the keystream cipher makes of `data` under `nonce`.
    pub(crate) fn transform_bytes(&self, nonce: &[u8], data: &[u8]) -> (out: Vec<u8>)
        requires
            self.valid(),
            nonce@.len() == C::NONCE_LENGTH,
        ensures
            out@ == C::transform(self.key(), nonce@, data@),
    {
        self.cipher.process(nonce, data)
    }

    /// The ciphertext of `data` and its tag.
    pub(crate) fn seal_bytes(&self, nonce: &[u8], aad: &[u8], data: &[u8]) -> (out: Vec<u8>)
        requires
            self.valid(),
            nonce@.len() == C::NONCE_LENGTH,
        ensures
            out@ == general_sealed::<C, M, H>(self.key(), nonce@, aad@, data@),
    {
        let mac = self.mac_for(nonce, aad);
        let mut output = self.cipher.process(nonce, data);
        let aad_and_ciphertext = concat(aad, output.as_slice());
        let mut tag = mac.result(aad_and_ciphertext.as_slice());
        output.append(&mut tag);
        output
    }

    /// The plaintext of `data`, which is at least a tag long, if its tag
    /// verifies. The tag is checked before anything is decrypted.
    pub(crate) fn open_bytes(&self, nonce: &[u8], aad: &[u8], data: &[u8]) -> (out: Option<Vec<u8>>)
        requires
            self.valid(),
            nonce@.len() == C::NONCE_LENGTH,
            data@.len() >= M::TAG_LENGTH,
        ensures
            out matches Some(plain) ==> general_opened::<C, M, H>(
                self.key(),
                nonce@,
                aad@,
                data@,
            ) == Some(plain@),
            out is None ==> general_opened::<C, M, H>(self.key(), nonce@, aad@, data@) is None,
    {
        let mac = self.mac_for(nonce, aad);
        let split = data.len() - M::TAG_LENGTH;
        let ciphertext = copy_range(data, 0, split);
        let tag = copy_range(data, split, data.len());
        let aad_and_ciphertext = concat(aad, ciphertext.as_slice());
        if mac.verify(aad_and_ciphertext.as_slice(), tag.as_slice()) {
            Some(self.cipher.process(nonce, ciphertext.as_slice()))
        } else {
            None
        }
    }

    /// Sets the associated data for the calls of `encrypt` and `decrypt` that
    /// follow.
    #[inline]
    pub fn with_aad(&mut self, aad: &[u8]) -> (r: &mut Self)
        requires
            old(self).valid(),
        ensures
            r.valid(),
            r.key() == old(self).key(),
            r.aad() == aad@,
            *final(self) == *final(r),
    {
        self.aad = vstd::slice::slice_to_vec(aad);
        self
    }

    /// Encrypts `data` under `nonce` and the associated data that was set.
    pub fn encrypt(&self, nonce: &[u8], data: &[u8]) -> (out: Vec<u8>)
        requires
            self.valid(),
            nonce@.len() == Self::NONCE_LENGTH,
        ensures
            out@ == Self::sealed(self.key(), nonce@, self.aad(), data@),
    {
        self.seal_bytes(nonce, self.aad.as_slice(), data)
    }

    /// Decrypts `data` under `nonce` and the associated data that was set.
    pub fn decrypt(&self, nonce: &[u8], data: &[u8]) -> (r: Result<Vec<u8>, Error>)
        requires
            self.valid(),
            nonce@.len() == Self::NONCE_LENGTH,
        ensures
            plain_of(r) == decrypt_outcome(
                Self::TAG_LENGTH as nat,
                data@.len(),
                Self::opened(self.key(), nonce@, self.aad(), data@),
            ),
    {
        if data.len() < M::TAG_LENGTH {
            return Err(Error::Length);
        }
        match self.open_bytes(nonce, self.aad.as_slice(), data) {
            Some(plain) => Ok(plain),
            None => Err(Error::VerificationFailed),
        }
    }
}

impl<C: StreamCipher, M: NonceMac, H: GenericHash> AeadCipher for General<C, M, H> {
    const KEY_LENGTH: usize = C::KEY_LENGTH;

    const NONCE_LENGTH: usize = C::NONCE_LENGTH;

    const TAG_LENGTH: usize = M::TAG_LENGTH;

    /// The authenticator must be one that can be made, and the hash must give
    /// digests of the lengths of the authenticator's key and nonce.
    open spec fn supported() -> bool {
        &&& M::supported()
        &&& H::accepts(M::KEY_LENGTH as nat, 0)
        &&& H::accepts(M::NONCE_LENGTH as nat, 0)
    }

    closed spec fn valid(&self) -> bool {
        &&& Self::supported()
        &&& self.cipher.key().len() == C::KEY_LENGTH
        &&& self.mac.valid()
        &&& self.mac.key() == mac_key::<M, H>(self.cipher.key())
        &&& self.mac.size() == M::TAG_LENGTH
    }

    closed spec fn key(&self) -> Seq<u8> {
        self.cipher.key()
    }

    open spec fn sealed(key: Seq<u8>, nonce: Seq<u8>, aad: Seq<u8>, input: Seq<u8>) -> Seq<u8> {
        general_sealed::<C, M, H>(key, nonce, aad, input)
    }

    open spec fn opened(key: Seq<u8>, nonce: Seq<u8>, aad: Seq<u8>, input: Seq<u8>) -> Option<
        Seq<u8>,
    > {
        general_opened::<C, M, H>(key, nonce, aad, input)
    }

    proof fn sealed_has_length(key: Seq<u8>, nonce: Seq<u8>, aad: Seq<u8>, input: Seq<u8>) {
        let ciphertext = C::transform(key, nonce, input);
        C::transform_twice(key, nonce, input);
        M::tag_has_size(
            mac_key::<M, H>(key),
            mac_nonce::<M, H>(nonce, aad),
            M::TAG_LENGTH as nat,
            aad + ciphertext,
        );
    }

    proof fn opened_has_length(key: Seq<u8>, nonce: Seq<u8>, aad: Seq<u8>, input: Seq<u8>) {
        if input.len() >= M::TAG_LENGTH {
            let ciphertext = input.subrange(0, input.len() - M::TAG_LENGTH);
            C::transform_twice(key, nonce, ciphertext);
        }
    }

    /// A fresh cipher has no associated data set.
    fn new(key: &[u8]) -> (cipher: Self)
        ensures
            cipher.aad() == Seq::<u8>::empty(),
    {
        let mut hash = H::default();
        hash.with_size(M::KEY_LENGTH);
        let derived = Bytes(hash.hash(key));
        proof {
            H::digest_has_size(M::KEY_LENGTH as nat, Seq::empty(), key@);
        }
        General {
            cipher: C::new(key),
            mac: M::new(derived.as_slice()),
            hash: PhantomData,
            aad: Vec::new(),
        }
    }

    fn seal(&self, nonce: &[u8], aad: &[u8], input: &[u8], output: &mut [u8]) -> (r: Result<
        (),
        Error,
    >) {
        if nonce.len() != C::NONCE_LENGTH || output.len() < M::TAG_LENGTH || output.len()
            - M::TAG_LENGTH != input.len() {
            return Err(Error::Length);
        }
        let sealed = self.seal_bytes(nonce, aad, input);
        proof {
            Self::sealed_has_length(self.key(), nonce@, aad@, input@);
        }
        copy_into(output, sealed.as_slice());
        Ok(())
    }

    fn open(&self, nonce: &[u8], aad: &[u8], input: &[u8], output: &mut [u8]) -> (r: Result<
        (),
        Error,
    >) {
        if nonce.len() != C::NONCE_LENGTH || input.len() < M::TAG_LENGTH || input.len()
            - M::TAG_LENGTH != output.len() {
            return Err(Error::Length);
        }
        match self.open_bytes(nonce, aad, input) {
            Some(plain) => {
                proof {
                    Self::opened_has_length(self.key(), nonce@, aad@, input@);
                }
                copy_into(output, plain.as_slice());
                Ok(())
            },
            None => Err(Error::VerificationFailed),
        }
    }
}

/// What was sealed opens again, and gives back what was sealed.
pub proof fn general_round_trip<C: StreamCipher, M: NonceMac, H: GenericHash>(
    key: Seq<u8>,
    nonce: Seq<u8>,
    aad: Seq<u8>,
    input: Seq<u8>,
)
    ensures
        general_opened::<C, M, H>(key, nonce, aad, general_sealed::<C, M, H>(key, nonce, aad, input))
            == Some(input),
{
    let ciphertext = C::transform(key, nonce, input);
    let tag = general_tag::<M, H>(key, nonce, aad, ciphertext);
    let sealed = ciphertext + tag;
    C::transform_twice(key, nonce, input);
    M::tag_has_size(
        mac_key::<M, H>(key),
        mac_nonce::<M, H>(nonce, aad),
        M::TAG_LENGTH as nat,
        aad + ciphertext,
    );
    assert(sealed.subrange(0, sealed.len() - M::TAG_LENGTH) =~= ciphertext);
    assert(sealed.subrange(sealed.len() - M::TAG_LENGTH, sealed.len() as int) =~= tag);
}

/// The construction opens whatever it has sealed.
pub proof fn general_round_trips<C: StreamCipher, M: NonceMac, H: GenericHash>()
    ensures
        round_trips::<General<C, M, H>>(),
{
    assert forall|key: Seq<u8>, nonce: Seq<u8>, aad: Seq<u8>, input: Seq<u8>|
        #[trigger] General::<C, M, H>::opened(
            key,
            nonce,
            aad,
            General::<C, M, H>::sealed(key, nonce, aad, input),
        ) == Some(input) by {
        general_round_trip::<C, M, H>(key, nonce, aad, input);
    }
}

/// A sealed message whose tag was changed does not open, whatever the change.
pub proof fn general_rejects_changed_tag<C: StreamCipher, M: NonceMac, H: GenericHash>(
    key: Seq<u8>,
    nonce: Seq<u8>,
    aad: Seq<u8>,
    input: Seq<u8>,
    forged: Seq<u8>,
)
    requires
        forged.len() == input.len() + M::TAG_LENGTH,
        forged.subrange(0, input.len() as int) == general_sealed::<C, M, H>(
            key,
            nonce,
            aad,
            input,
        ).subrange(0, input.len() as int),
        forged != general_sealed::<C, M, H>(key, nonce, aad, input),
    ensures
        general_opened::<C, M, H>(key, nonce, aad, forged) is None,
{
    let ciphertext = C::transform(key, nonce, input);
    let tag = general_tag::<M, H>(key, nonce, aad, ciphertext);
    let sealed = ciphertext + tag;
    C::transform_twice(key, nonce, input);
    M::tag_has_size(
        mac_key::<M, H>(key),
        mac_nonce::<M, H>(nonce, aad),
        M::TAG_LENGTH as nat,
        aad + ciphertext,
    );
    let forged_ciphertext = forged.subrange(0, forged.len() - M::TAG_LENGTH);
    let forged_tag = forged.subrange(forged.len() - M::TAG_LENGTH, forged.len() as int);
    assert(sealed.subrange(0, input.len() as int) =~= ciphertext);
    assert(forged_ciphertext == ciphertext);
    if forged_tag == tag {
        assert(forged =~= forged_ciphertext + forged_tag);
        assert(forged == sealed);
    }
}

/// Whatever is handed in, with whatever nonce and associated data: it opens
/// exactly where its last bytes are the tag of the associated data and of the
/// bytes before them. A changed ciphertext, or changed associated data, opens
/// only where the authenticator gives the tag that is there.
pub proof fn general_opens_only_what_verifies<C: StreamCipher, M: NonceMac, H: GenericHash>(
    key: Seq<u8>,
    nonce: Seq<u8>,
    aad: Seq<u8>,
    input: Seq<u8>,
)
    requires
        input.len() >= M::TAG_LENGTH,
    ensures
        general_opened::<C, M, H>(key, nonce, aad, input) is Some <==> input.subrange(
            input.len() - M::TAG_LENGTH,
            input.len() as int,
        ) == general_tag::<M, H>(
            key,
            nonce,
            aad,
            input.subrange(0, input.len() - M::TAG_LENGTH),
        ),
{
}

} // verus!
