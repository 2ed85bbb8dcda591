//! Authenticated encryption with associated data.
//!
//! What a cipher seals is the ciphertext, as long as the plaintext, followed by
//! a tag of fixed length. Opening checks the tag and gives the plaintext only
//! where the check passes.

use vstd::prelude::*;

use crate::Error;

pub mod ascon;
pub mod general;
pub mod general_online;
pub mod general_riv;
pub mod norx_mrs;
pub mod online;
pub mod riv;
pub mod riv_general;

pub use self::ascon::Ascon;
pub use self::general::General;
pub use self::general_riv::GeneralRiv;
pub use self::norx_mrs::NorxMRS;
pub use self::riv_general::RivGeneral;

verus! {

/// An authenticated cipher.
pub trait AeadCipher: Sized {
    /// Key length.
    const KEY_LENGTH: usize;

    /// Nonce length.
    const NONCE_LENGTH: usize;

    /// Tag length.
    const TAG_LENGTH: usize;

    /// Whether the parts that the cipher is built from fit together, so that
    /// one can be made at all.
    spec fn supported() -> bool;

    /// Whether this cipher is in a state in which it can seal and open.
    spec fn valid(&self) -> bool;

    /// The key that the cipher was made with.
    spec fn key(&self) -> Seq<u8>;

    /// What sealing `input` gives: the ciphertext, then the tag.
    spec fn sealed(key: Seq<u8>, nonce: Seq<u8>, aad: Seq<u8>, input: Seq<u8>) -> Seq<u8>;

    /// What opening `input` gives: the plaintext, or nothing where `input`
    /// does not verify.
    spec fn opened(key: Seq<u8>, nonce: Seq<u8>, aad: Seq<u8>, input: Seq<u8>) -> Option<
        Seq<u8>,
    >;

    /// Sealing adds the tag's length.
    proof fn sealed_has_length(key: Seq<u8>, nonce: Seq<u8>, aad: Seq<u8>, input: Seq<u8>)
        ensures
            Self::sealed(key, nonce, aad, input).len() == input.len() + Self::TAG_LENGTH,
    ;

    /// Opening takes the tag's length away.
    proof fn opened_has_length(key: Seq<u8>, nonce: Seq<u8>, aad: Seq<u8>, input: Seq<u8>)
        ensures
            Self::opened(key, nonce, aad, input) matches Some(plain) ==> plain.len()
                + Self::TAG_LENGTH == input.len(),
    ;

    /// A cipher under `key`.
    fn new(key: &[u8]) -> (cipher: Self)
        requires
            Self::supported(),
            key@.len() == Self::KEY_LENGTH,
        ensures
            cipher.valid(),
            cipher.key() == key@,
    ;

    /// Seals `input` into `output`, which must be longer than `input` by the
    /// tag's length.
    fn seal(&self, nonce: &[u8], aad: &[u8], input: &[u8], output: &mut [u8]) -> (r: Result<
        (),
        Error,
    >)
        requires
            self.valid(),
        ensures
            (r, final(output)@) == seal_outcome(
                nonce@.len() == Self::NONCE_LENGTH,
                Self::TAG_LENGTH as nat,
                input@.len(),
                old(output)@,
                Self::sealed(self.key(), nonce@, aad@, input@),
            ),
    ;

    /// Opens `input` into `output`, which must be shorter than `input` by the
    /// tag's length. Where `input` does not verify, `output` is left as it
    /// was.
    fn open(&self, nonce: &[u8], aad: &[u8], input: &[u8], output: &mut [u8]) -> (r: Result<
        (),
        Error,
    >)
        requires
            self.valid(),
        ensures
            (r, final(output)@) == open_outcome(
                nonce@.len() == Self::NONCE_LENGTH,
                Self::TAG_LENGTH as nat,
                input@.len(),
                old(output)@,
                Self::opened(self.key(), nonce@, aad@, input@),
            ),
    ;
}

/// What `seal` returns and what it leaves in the output buffer: a length error
/// and the buffer untouched where the nonce or the buffer has the wrong length,
/// else the sealed bytes.
pub open spec fn seal_outcome(
    nonce_fits: bool,
    tag_length: nat,
    input_length: nat,
    output: Seq<u8>,
    sealed: Seq<u8>,
) -> (Result<(), Error>, Seq<u8>) {
    if !nonce_fits || input_length + tag_length != output.len() {
        (Err(Error::Length), output)
    } else {
        (Ok(()), sealed)
    }
}

/// What `open` returns and what it leaves in the output buffer: a length error
/// where the nonce or the buffer has the wrong length, a failed verification
/// where the input does not verify, and in both cases the buffer untouched;
/// else the plaintext.
pub open spec fn open_outcome(
    nonce_fits: bool,
    tag_length: nat,
    input_length: nat,
    output: Seq<u8>,
    opened: Option<Seq<u8>>,
) -> (Result<(), Error>, Seq<u8>) {
    if !nonce_fits || input_length != output.len() + tag_length {
        (Err(Error::Length), output)
    } else {
        match opened {
            Some(plain) => (Ok(()), plain),
            None => (Err(Error::VerificationFailed), output),
        }
    }
}

/// What opening a vector gives where the nonce has the right length: a length
/// error where the input is shorter than a tag, a failed verification where
/// it does not verify, else the plaintext.
pub open spec fn decrypt_outcome(
    tag_length: nat,
    input_length: nat,
    opened: Option<Seq<u8>>,
) -> Result<Seq<u8>, Error> {
    if input_length < tag_length {
        Err(Error::Length)
    } else {
        match opened {
            Some(plain) => Ok(plain),
            None => Err(Error::VerificationFailed),
        }
    }
}

/// The plaintext of a result, as a sequence.
pub open spec fn plain_of(r: Result<Vec<u8>, Error>) -> Result<Seq<u8>, Error> {
    match r {
        Ok(plain) => Ok(plain@),
        Err(e) => Err(e),
    }
}

/// The cipher opens whatever it has sealed, and gives back what was sealed.
pub open spec fn round_trips<AE: AeadCipher>() -> bool {
    forall|key: Seq<u8>, nonce: Seq<u8>, aad: Seq<u8>, input: Seq<u8>|
        #[trigger] AE::opened(key, nonce, aad, AE::sealed(key, nonce, aad, input)) == Some(input)
}

/// What `seal` has written, `open` opens: for every cipher that opens what it
/// has sealed, with a nonce and buffers of the right lengths, `open` on the
/// sealed bytes returns `Ok` and leaves the plaintext in its buffer.
pub proof fn open_after_seal<AE: AeadCipher>(
    key: Seq<u8>,
    nonce: Seq<u8>,
    aad: Seq<u8>,
    input: Seq<u8>,
    sealed_buffer: Seq<u8>,
    opened_buffer: Seq<u8>,
)
    requires
        round_trips::<AE>(),
        nonce.len() == AE::NONCE_LENGTH,
        sealed_buffer.len() == input.len() + AE::TAG_LENGTH,
        opened_buffer.len() == input.len(),
    ensures
        ({
            let sealed = seal_outcome(
                true,
                AE::TAG_LENGTH as nat,
                input.len(),
                sealed_buffer,
                AE::sealed(key, nonce, aad, input),
            );
            &&& sealed.0 == Ok::<(), Error>(())
            &&& open_outcome(
                true,
                AE::TAG_LENGTH as nat,
                sealed.1.len(),
                opened_buffer,
                AE::opened(key, nonce, aad, sealed.1),
            ) == (Ok::<(), Error>(()), input)
        }),
{
    AE::sealed_has_length(key, nonce, aad, input);
    assert(AE::opened(key, nonce, aad, AE::sealed(key, nonce, aad, input)) == Some(input));
}

} // verus!
