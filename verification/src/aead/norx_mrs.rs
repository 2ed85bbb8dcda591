//! The misuse-resistant sponge mode over the NORX permutation.

use vstd::prelude::*;

use super::AeadCipher;
use crate::seqs::{copy_into, copy_range};
use crate::utils::bytes::wipe;
use crate::utils::Bytes;
use crate::Error;

verus! {

/// The NORX permutation on words of 64 bits, four rounds, as the sponge mode
/// takes it.
struct Norx644P;

impl mem_aead_mrs::Permutation for Norx644P {
    /// `norx_permutation::norx` on the sponge's state. The mode calls it;
    /// nothing is claimed of it here.
    #[verifier::external_body]
    #[inline]
    fn permutation(state: &mut [u64; 16]) {
        norx_permutation::norx(state)
    }
}

/// Byte `i` of what the mode seals: the ciphertext of `message`, then the tag.
pub uninterp spec fn mrs_sealed_byte(
    key: Seq<u8>,
    nonce: Seq<u8>,
    aad: Seq<u8>,
    message: Seq<u8>,
    i: int,
) -> u8;

/// What the mode makes of a ciphertext and a tag: whether the tag verifies,
/// and the bytes that decrypting leaves, verified or not.
pub uninterp spec fn mrs_opened(
    key: Seq<u8>,
    nonce: Seq<u8>,
    aad: Seq<u8>,
    ciphertext: Seq<u8>,
    tag: Seq<u8>,
) -> (bool, Seq<u8>);

/// `mem_aead_mrs::Mrs::new().encrypt(key, nonce, aad, m, tag)` on a copy of the
/// message: the copy becomes the ciphertext, as long as the message, and the
/// tag of 32 bytes is written; the two are joined. Both are determined by the
/// four arguments.
#[verifier::external_body]
fn mrs_encrypt(key: &[u8], nonce: &[u8], aad: &[u8], message: &[u8]) -> (out: Vec<u8>)
    requires
        key@.len() == 32,
        nonce@.len() == 16,
    ensures
        out@.len() == message@.len() + 32,
        forall|i: int|
            0 <= i < out@.len() ==> out@[i] == mrs_sealed_byte(key@, nonce@, aad@, message@, i),
{
    let mut out = message.to_vec();
    let mut tag = [0u8; 32];
    mem_aead_mrs::Mrs::<Norx644P>::new().encrypt(
        key.try_into().unwrap(),
        nonce.try_into().unwrap(),
        aad,
        &mut out,
        &mut tag,
    );
    out.extend_from_slice(&tag);
    out
}

/// `mem_aead_mrs::Mrs::new().decrypt(key, nonce, aad, c, tag)` on a copy of the
/// ciphertext: the copy is decrypted where it stands, and the call says
/// whether the tag verifies. The copy keeps its length. Both results are
/// determined by the five arguments.
#[verifier::external_body]
fn mrs_decrypt(key: &[u8], nonce: &[u8], aad: &[u8], ciphertext: &[u8], tag: &[u8]) -> (r: (
    bool,
    Vec<u8>,
))
    requires
        key@.len() == 32,
        nonce@.len() == 16,
        tag@.len() == 32,
    ensures
        (r.0, r.1@) == mrs_opened(key@, nonce@, aad@, ciphertext@, tag@),
        r.1@.len() == ciphertext@.len(),
{
    let mut out = ciphertext.to_vec();
    let ok = mem_aead_mrs::Mrs::<Norx644P>::new().decrypt(
        key.try_into().unwrap(),
        nonce.try_into().unwrap(),
        aad,
        &mut out,
        tag.try_into().unwrap(),
    );
    (ok, out)
}

/// The misuse-resistant sponge mode over NORX.
pub struct NorxMRS(Bytes);

impl NorxMRS {
    /// The lengths of the key, the nonce and the tag.
    pub proof fn lengths()
        ensures
            Self::KEY_LENGTH == 32,
            Self::NONCE_LENGTH == 16,
            Self::TAG_LENGTH == 32,
    {
    }
}

impl AeadCipher for NorxMRS {
    const KEY_LENGTH: usize = 32;

    const NONCE_LENGTH: usize = 16;

    const TAG_LENGTH: usize = 32;

    open spec fn supported() -> bool {
        true
    }

    closed spec fn valid(&self) -> bool {
        self.0@.len() == 32
    }

    closed spec fn key(&self) -> Seq<u8> {
        self.0@
    }

    open spec fn sealed(key: Seq<u8>, nonce: Seq<u8>, aad: Seq<u8>, input: Seq<u8>) -> Seq<u8> {
        Seq::new(input.len() + 32, |i: int| mrs_sealed_byte(key, nonce, aad, input, i))
    }

    open spec fn opened(key: Seq<u8>, nonce: Seq<u8>, aad: Seq<u8>, input: Seq<u8>) -> Option<
        Seq<u8>,
    > {
        if input.len() < 32 {
            None
        } else {
            let ciphertext = input.subrange(0, input.len() - 32);
            let tag = input.subrange(input.len() - 32, input.len() as int);
            let (verified, plain) = mrs_opened(key, nonce, aad, ciphertext, tag);
            if verified && plain.len() == ciphertext.len() {
                Some(plain)
            } else {
                None
            }
        }
    }

    proof fn sealed_has_length(key: Seq<u8>, nonce: Seq<u8>, aad: Seq<u8>, input: Seq<u8>) {
    }

    proof fn opened_has_length(key: Seq<u8>, nonce: Seq<u8>, aad: Seq<u8>, input: Seq<u8>) {
    }

    fn new(key: &[u8]) -> (cipher: Self) {
        NorxMRS(Bytes::new(key))
    }

    fn seal(&self, nonce: &[u8], aad: &[u8], input: &[u8], output: &mut [u8]) -> (r: Result<
        (),
        Error,
    >) {
        if nonce.len() != 16 || output.len() < 32 || output.len() - 32 != input.len() {
            return Err(Error::Length);
        }
        let sealed = mrs_encrypt(self.0.as_slice(), nonce, aad, input);
        assert(sealed@ =~= Self::sealed(self.key(), nonce@, aad@, input@));
        copy_into(output, sealed.as_slice());
        Ok(())
    }

    /// What the mode decrypted is copied out only where the tag verified;
    /// where it did not, it is wiped.
    fn open(&self, nonce: &[u8], aad: &[u8], input: &[u8], output: &mut [u8]) -> (r: Result<
        (),
        Error,
    >) {
        if nonce.len() != 16 || input.len() < 32 || input.len() - 32 != output.len() {
            return Err(Error::Length);
        }
        let split = input.len() - 32;
        let ciphertext = copy_range(input, 0, split);
        let tag = copy_range(input, split, input.len());
        let (verified, mut plain) = mrs_decrypt(
            self.0.as_slice(),
            nonce,
            aad,
            ciphertext.as_slice(),
            tag.as_slice(),
        );
        if verified {
            copy_into(output, plain.as_slice());
            Ok(())
        } else {
            wipe(&mut plain);
            Err(Error::VerificationFailed)
        }
    }
}

} // verus!
