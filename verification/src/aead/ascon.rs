//! Ascon.

use vstd::prelude::*;

use super::{decrypt_outcome, plain_of, AeadCipher};
use crate::seqs::{copy_into, copy_range};
use crate::utils::Bytes;
use crate::Error;

verus! {

/// `ascon::DecryptFail`, the two ways in which Ascon refuses to decrypt: a tag
/// of the wrong length, and a tag that does not verify.
#[verifier::external_type_specification]
pub struct ExAsconDecryptFail(ascon::DecryptFail);

/// Byte `i` of what Ascon seals: the ciphertext of `message`, then the tag.
pub uninterp spec fn ascon_sealed_byte(
    key: Seq<u8>,
    nonce: Seq<u8>,
    message: Seq<u8>,
    aad: Seq<u8>,
    i: int,
) -> u8;

/// What Ascon makes of a ciphertext and a tag: the plaintext, or nothing.
pub uninterp spec fn ascon_opened(
    key: Seq<u8>,
    nonce: Seq<u8>,
    ciphertext: Seq<u8>,
    aad: Seq<u8>,
    tag: Seq<u8>,
) -> Option<Seq<u8>>;

/// `ascon::aead_encrypt(key, nonce, message, aad)`, its two results joined:
/// the ciphertext, as long as the message, then the tag of 16 bytes. Both are
/// determined by the four arguments.
#[verifier::external_body]
fn ascon_encrypt(key: &[u8], nonce: &[u8], message: &[u8], aad: &[u8]) -> (out: Vec<u8>)
    requires
        key@.len() == 16,
        nonce@.len() == 16,
    ensures
        out@.len() == message@.len() + 16,
        forall|i: int|
            0 <= i < out@.len() ==> out@[i] == ascon_sealed_byte(
                key@,
                nonce@,
                message@,
                aad@,
                i,
            ),
{
    let (mut out, tag) = ascon::aead_encrypt(key, nonce, message, aad);
    out.extend_from_slice(&tag);
    out
}

/// `ascon::aead_decrypt(key, nonce, ciphertext, aad, tag)`: a tag that is not
/// 16 bytes long is refused as such; else the plaintext, as long as the
/// ciphertext, where the tag verifies, and an authentication failure where it
/// does not. Which of the two is determined by the five arguments.
#[verifier::external_body]
fn ascon_decrypt(key: &[u8], nonce: &[u8], ciphertext: &[u8], aad: &[u8], tag: &[u8]) -> (r:
    Result<Vec<u8>, ascon::DecryptFail>)
    requires
        key@.len() == 16,
        nonce@.len() == 16,
    ensures
        tag@.len() != 16 ==> r matches Err(ascon::DecryptFail::TagLengthError),
        tag@.len() == 16 ==> match ascon_opened(key@, nonce@, ciphertext@, aad@, tag@) {
            Some(plain) => r matches Ok(out) && out@ == plain,
            None => r matches Err(ascon::DecryptFail::AuthenticationFail),
        },
        r matches Ok(out) ==> out@.len() == ciphertext@.len(),
{
    ascon::aead_decrypt(key, nonce, ciphertext, aad, tag)
}

/// The library's error for each of Ascon's.
pub fn error_of(err: ascon::DecryptFail) -> (e: Error)
    ensures
        e == (match err {
            ascon::DecryptFail::TagLengthError => Error::Length,
            ascon::DecryptFail::AuthenticationFail => Error::VerificationFailed,
        }),
{
    match err {
        ascon::DecryptFail::TagLengthError => Error::Length,
        ascon::DecryptFail::AuthenticationFail => Error::VerificationFailed,
    }
}

/// Ascon.
pub struct Ascon {
    key: Bytes,
    aad: Vec<u8>,
}

impl Ascon {
    /// The associated data that was set.
    pub closed spec fn aad(&self) -> Seq<u8> {
        self.aad@
    }

    /// The lengths of the key, the nonce and the tag.
    pub proof fn lengths()
        ensures
            Self::KEY_LENGTH == 16,
            Self::NONCE_LENGTH == 16,
            Self::TAG_LENGTH == 16,
    {
    }

    /// The plaintext of `data`, which is at least a tag long, or the error.
    fn open_bytes(&self, nonce: &[u8], aad: &[u8], data: &[u8]) -> (r: Result<Vec<u8>, Error>)
        requires
            self.valid(),
            nonce@.len() == 16,
            data@.len() >= 16,
        ensures
            plain_of(r) == decrypt_outcome(
                16,
                data@.len(),
                Self::opened(self.key(), nonce@, aad@, data@),
            ),
    {
        let split = data.len() - 16;
        let ciphertext = copy_range(data, 0, split);
        let tag = copy_range(data, split, data.len());
        match ascon_decrypt(
            self.key.as_slice(),
            nonce,
            ciphertext.as_slice(),
            aad,
            tag.as_slice(),
        ) {
            Ok(plain) => Ok(plain),
            Err(err) => Err(error_of(err)),
        }
    }

    /// Sets the associated data for the calls of `encrypt` and `decrypt` that
    /// follow.
    pub fn with_aad(&mut self, aad: &[u8]) -> (r: &mut Self)
        requires
            old(self).valid(),
        ensures
            r.valid(),
            r.key() == old(self).key(),
            r.aad() == aad@,
            *final(self) == *final(r),
    {
        self.aad = vstd::slice::slice_to_vec(aad);
        self
    }

    /// Encrypts `data` under `nonce` and the associated data that was set.
    pub fn encrypt(&self, nonce: &[u8], data: &[u8]) -> (out: Vec<u8>)
        requires
            self.valid(),
            nonce@.len() == Self::NONCE_LENGTH,
        ensures
            out@ == Self::sealed(self.key(), nonce@, self.aad(), data@),
    {
        let out = ascon_encrypt(self.key.as_slice(), nonce, data, self.aad.as_slice());
        assert(out@ =~= Self::sealed(self.key(), nonce@, self.aad(), data@));
        out
    }

    /// Decrypts `data` under `nonce` and the associated data that was set.
    pub fn decrypt(&self, nonce: &[u8], data: &[u8]) -> (r: Result<Vec<u8>, Error>)
        requires
            self.valid(),
            nonce@.len() == Self::NONCE_LENGTH,
        ensures
            plain_of(r) == decrypt_outcome(
                Self::TAG_LENGTH as nat,
                data@.len(),
                Self::opened(self.key(), nonce@, self.aad(), data@),
            ),
    {
        if data.len() < 16 {
            return Err(Error::Length);
        }
        self.open_bytes(nonce, self.aad.as_slice(), data)
    }
}

impl AeadCipher for Ascon {
    const KEY_LENGTH: usize = 16;

    const NONCE_LENGTH: usize = 16;

    const TAG_LENGTH: usize = 16;

    open spec fn supported() -> bool {
        true
    }

    closed spec fn valid(&self) -> bool {
        self.key@.len() == 16
    }

    closed spec fn key(&self) -> Seq<u8> {
        self.key@
    }

    open spec fn sealed(key: Seq<u8>, nonce: Seq<u8>, aad: Seq<u8>, input: Seq<u8>) -> Seq<u8> {
        Seq::new(input.len() + 16, |i: int| ascon_sealed_byte(key, nonce, input, aad, i))
    }

    open spec fn opened(key: Seq<u8>, nonce: Seq<u8>, aad: Seq<u8>, input: Seq<u8>) -> Option<
        Seq<u8>,
    > {
        if input.len() < 16 {
            None
        } else {
            let ciphertext = input.subrange(0, input.len() - 16);
            let tag = input.subrange(input.len() - 16, input.len() as int);
            match ascon_opened(key, nonce, ciphertext, aad, tag) {
                Some(plain) => if plain.len() == ciphertext.len() {
                    Some(plain)
                } else {
                    None
                },
                None => None,
            }
        }
    }

    proof fn sealed_has_length(key: Seq<u8>, nonce: Seq<u8>, aad: Seq<u8>, input: Seq<u8>) {
    }

    proof fn opened_has_length(key: Seq<u8>, nonce: Seq<u8>, aad: Seq<u8>, input: Seq<u8>) {
    }

    /// A fresh cipher has no associated data set.
    fn new(key: &[u8]) -> (cipher: Self)
        ensures
            cipher.aad() == Seq::<u8>::empty(),
    {
        Ascon { key: Bytes::new(key), aad: Vec::new() }
    }

    fn seal(&self, nonce: &[u8], aad: &[u8], input: &[u8], output: &mut [u8]) -> (r: Result<
        (),
        Error,
    >) {
        if nonce.len() != 16 || output.len() < 16 || output.len() - 16 != input.len() {
            return Err(Error::Length);
        }
        let sealed = ascon_encrypt(self.key.as_slice(), nonce, input, aad);
        assert(sealed@ =~= Self::sealed(self.key(), nonce@, aad@, input@));
        copy_into(output, sealed.as_slice());
        Ok(())
    }

    fn open(&self, nonce: &[u8], aad: &[u8], input: &[u8], output: &mut [u8]) -> (r: Result<
        (),
        Error,
    >) {
        if nonce.len() != 16 || input.len() < 16 || input.len() - 16 != output.len() {
            return Err(Error::Length);
        }
        match self.open_bytes(nonce, aad, input) {
            Ok(plain) => {
                copy_into(output, plain.as_slice());
                Ok(())
            },
            Err(e) => Err(e),
        }
    }
}

} // verus!
