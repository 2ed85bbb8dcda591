//! The general construction, piece by piece.
//!
//! The keystream cipher and the authenticator are called on whole byte
//! strings only. A process therefore keeps what it has taken: the keystream
//! cipher is run over all of it at each call, and what is new of its output is
//! handed out; the tag is made, or checked, over the whole message when the
//! process is finalized. A process so costs memory in the length of the
//! message and time in its square, and suits messages that are handed in in
//! few pieces. What a process keeps is wiped when the process ends. When
//! decrypting, the bytes that `finalize` is given are decrypted only once
//! their tag has verified.

use vstd::prelude::*;
use vstd::slice::{slice_subrange, slice_to_vec};

use super::general::{general_sealed, general_tag, General};
use super::online::{
    check_decrypt_lengths, check_encrypt_lengths, decrypt_take, encrypt_take,
    lemma_take_withholds, shorter, Decryption, Encryption, Online, Session,
};
use super::AeadCipher;
use crate::auth::NonceMac;
use crate::hash::GenericHash;
use crate::seqs::{concat, copy_into, copy_range};
use crate::stream::StreamCipher;
use crate::utils::Bytes;
use crate::Error;

verus! {

/// The number of bytes that the processes of the general construction take as
/// one block.
pub const BLOCK_LENGTH: usize = 64;

/// A process that encrypts one message under the general construction.
pub struct EncryptProcess<'a, C, M, H> {
    cipher: &'a General<C, M, H>,
    nonce: Vec<u8>,
    aad: Vec<u8>,
    taken: Bytes,
}

/// A process that decrypts one message under the general construction.
pub struct DecryptProcess<'a, C, M, H> {
    cipher: &'a General<C, M, H>,
    nonce: Vec<u8>,
    aad: Vec<u8>,
    taken: Bytes,
}

impl<'a, C: StreamCipher, M: NonceMac, H: GenericHash> Encryption<'a> for EncryptProcess<
    'a,
    C,
    M,
    H,
> {
    open spec fn block_length() -> nat {
        BLOCK_LENGTH as nat
    }

    open spec fn tag_length() -> nat {
        M::TAG_LENGTH as nat
    }

    closed spec fn valid(&self) -> bool {
        &&& self.cipher.valid()
        &&& self.nonce@.len() == C::NONCE_LENGTH
        &&& self.taken@.len() % (BLOCK_LENGTH as nat) == 0
    }

    closed spec fn session(&self) -> Session {
        Session { key: self.cipher.key(), nonce: self.nonce@, aad: self.aad@ }
    }

    closed spec fn consumed(&self) -> Seq<u8> {
        self.taken@
    }

    open spec fn sealed(session: Session, message: Seq<u8>) -> Seq<u8> {
        general_sealed::<C, M, H>(session.key, session.nonce, session.aad, message)
    }

    proof fn valid_is_aligned(&self) {
    }

    proof fn sealed_has_length(session: Session, message: Seq<u8>) {
        lemma_sealed_length::<C, M, H>(session, message);
    }

    proof fn sealed_is_online(session: Session, first: Seq<u8>, second: Seq<u8>, k: nat) {
        lemma_take_withholds(first.len(), BLOCK_LENGTH as nat);
        lemma_take_withholds(second.len(), BLOCK_LENGTH as nat);
        lemma_sealed_begins_with_transform::<C, M, H>(session, first, k);
        lemma_sealed_begins_with_transform::<C, M, H>(session, second, k);
    }

    fn process<'b>(&mut self, input: &[u8], output: &'b mut [u8]) -> (done: &'b [u8]) {
        let take = encrypt_take(input.len(), output.len(), BLOCK_LENGTH);
        let before = self.taken.len();
        proof {
            lemma_take_withholds(
                shorter(input@.len(), old(output)@.len()),
                BLOCK_LENGTH as nat,
            );
        }
        self.taken.0.extend_from_slice(slice_subrange(input, 0, take));
        let all = self.cipher.transform_bytes(self.nonce.as_slice(), self.taken.as_slice());
        proof {
            C::transform_twice(self.cipher.key(), self.nonce@, self.taken@);
            lemma_sealed_begins_with_transform::<C, M, H>(
                self.session(),
                self.taken@.push(0u8),
                self.taken@.len(),
            );
            assert(self.taken@.push(0u8).subrange(0, self.taken@.len() as int) =~= self.taken@);
        }
        let fresh = copy_range(all.as_slice(), before, all.len());
        proof {
            assert(self.session() == old(self).session());
            assert(self.consumed() == old(self).consumed() + input@.subrange(0, take as int));
            lemma_sealed_length::<C, M, H>(self.session(), self.taken@.push(0u8));
            assert(all@ == Self::sealed(self.session(), self.consumed().push(0u8)).subrange(
                0,
                self.consumed().len() as int,
            ));
            assert(fresh@ =~= Self::sealed(self.session(), self.consumed().push(0u8)).subrange(
                before as int,
                self.consumed().len() as int,
            ));
        }
        let (head, _) = output.split_at_mut(take);
        copy_into(head, fresh.as_slice());
        head
    }

    fn finalize(self, input: &[u8], output: &mut [u8]) -> (r: Result<(), Error>) {
        if check_encrypt_lengths(input.len(), output.len(), M::TAG_LENGTH).is_err() {
            return Err(Error::Length);
        }
        let whole = concat(self.taken.as_slice(), input);
        let sealed = self.cipher.seal_bytes(
            self.nonce.as_slice(),
            self.aad.as_slice(),
            whole.as_slice(),
        );
        proof {
            lemma_sealed_length::<C, M, H>(self.session(), whole@);
            assert(sealed@ == Self::sealed(self.session(), self.consumed() + input@));
        }
        let last = copy_range(sealed.as_slice(), self.taken.len(), sealed.len());
        copy_into(output, last.as_slice());
        Ok(())
    }
}

/// What the construction seals is longer than the message by the tag.
proof fn lemma_sealed_length<C: StreamCipher, M: NonceMac, H: GenericHash>(
    session: Session,
    message: Seq<u8>,
)
    ensures
        general_sealed::<C, M, H>(session.key, session.nonce, session.aad, message).len()
            == message.len() + M::TAG_LENGTH,
{
    General::<C, M, H>::sealed_has_length(session.key, session.nonce, session.aad, message);
    General::<C, M, H>::lengths();
    assert(General::<C, M, H>::sealed(session.key, session.nonce, session.aad, message)
        == general_sealed::<C, M, H>(session.key, session.nonce, session.aad, message));
}

/// What the construction seals begins with what the keystream cipher makes
/// of the beginning of the message.
proof fn lemma_sealed_begins_with_transform<C: StreamCipher, M: NonceMac, H: GenericHash>(
    session: Session,
    message: Seq<u8>,
    k: nat,
)
    requires
        k <= message.len(),
    ensures
        general_sealed::<C, M, H>(session.key, session.nonce, session.aad, message).subrange(
            0,
            k as int,
        ) == C::transform(session.key, session.nonce, message.subrange(0, k as int)),
{
    let ciphertext = C::transform(session.key, session.nonce, message);
    C::transform_twice(session.key, session.nonce, message);
    C::transform_is_online(session.key, session.nonce, message, k);
    let sealed = general_sealed::<C, M, H>(session.key, session.nonce, session.aad, message);
    assert(sealed.subrange(0, k as int) =~= ciphertext.subrange(0, k as int));
}

impl<'a, C: StreamCipher, M: NonceMac, H: GenericHash> Decryption<'a> for DecryptProcess<
    'a,
    C,
    M,
    H,
> {
    open spec fn block_length() -> nat {
        BLOCK_LENGTH as nat
    }

    open spec fn tag_length() -> nat {
        M::TAG_LENGTH as nat
    }

    closed spec fn valid(&self) -> bool {
        &&& self.cipher.valid()
        &&& self.nonce@.len() == C::NONCE_LENGTH
        &&& self.taken@.len() % (BLOCK_LENGTH as nat) == 0
    }

    closed spec fn session(&self) -> Session {
        Session { key: self.cipher.key(), nonce: self.nonce@, aad: self.aad@ }
    }

    closed spec fn consumed(&self) -> Seq<u8> {
        self.taken@
    }

    open spec fn plain(session: Session, ciphertext: Seq<u8>) -> Seq<u8> {
        C::transform(session.key, session.nonce, ciphertext)
    }

    open spec fn verifies(session: Session, ciphertext: Seq<u8>, tag: Seq<u8>) -> bool {
        tag == general_tag::<M, H>(session.key, session.nonce, session.aad, ciphertext)
    }

    proof fn valid_is_aligned(&self) {
    }

    proof fn plain_has_length(session: Session, ciphertext: Seq<u8>) {
        C::transform_twice(session.key, session.nonce, ciphertext);
    }

    proof fn plain_is_online(session: Session, first: Seq<u8>, second: Seq<u8>, k: nat) {
        lemma_take_withholds(first.len(), BLOCK_LENGTH as nat);
        lemma_take_withholds(second.len(), BLOCK_LENGTH as nat);
        C::transform_is_online(session.key, session.nonce, first, k);
        C::transform_is_online(session.key, session.nonce, second, k);
    }

    fn process<'b>(&mut self, input: &[u8], output: &'b mut [u8]) -> (done: &'b [u8]) {
        let take = decrypt_take(input.len(), output.len(), BLOCK_LENGTH, M::TAG_LENGTH);
        let before = self.taken.len();
        proof {
            let len = shorter(input@.len(), old(output)@.len() + M::TAG_LENGTH as nat);
            if len > M::TAG_LENGTH {
                lemma_take_withholds((len - M::TAG_LENGTH) as nat, BLOCK_LENGTH as nat);
            }
        }
        self.taken.0.extend_from_slice(slice_subrange(input, 0, take));
        let all = self.cipher.transform_bytes(self.nonce.as_slice(), self.taken.as_slice());
        proof {
            C::transform_twice(self.cipher.key(), self.nonce@, self.taken@);
            C::transform_is_online(
                self.cipher.key(),
                self.nonce@,
                self.taken@.push(0u8),
                self.taken@.len(),
            );
            assert(self.taken@.push(0u8).subrange(0, self.taken@.len() as int) =~= self.taken@);
        }
        let fresh = copy_range(all.as_slice(), before, all.len());
        proof {
            assert(self.session() == old(self).session());
            assert(self.consumed() == old(self).consumed() + input@.subrange(0, take as int));
            C::transform_twice(self.cipher.key(), self.nonce@, self.taken@.push(0u8));
            assert(all@ == Self::plain(self.session(), self.consumed().push(0u8)).subrange(
                0,
                self.consumed().len() as int,
            ));
            assert(fresh@ =~= Self::plain(self.session(), self.consumed().push(0u8)).subrange(
                before as int,
                self.consumed().len() as int,
            ));
        }
        let (head, _) = output.split_at_mut(take);
        copy_into(head, fresh.as_slice());
        head
    }

    fn finalize(self, input: &[u8], output: &mut [u8]) -> (r: Result<(), Error>) {
        if check_decrypt_lengths(input.len(), output.len(), M::TAG_LENGTH).is_err() {
            return Err(Error::Length);
        }
        let whole = concat(self.taken.as_slice(), input);
        let ghost body = self.taken@ + input@.subrange(0, input@.len() - M::TAG_LENGTH);
        proof {
            assert(whole@.subrange(0, whole@.len() - M::TAG_LENGTH) =~= body);
            assert(whole@.subrange(whole@.len() - M::TAG_LENGTH, whole@.len() as int)
                =~= input@.subrange(input@.len() - M::TAG_LENGTH, input@.len() as int));
            C::transform_twice(self.cipher.key(), self.nonce@, body);
        }
        match self.cipher.open_bytes(
            self.nonce.as_slice(),
            self.aad.as_slice(),
            whole.as_slice(),
        ) {
            Some(plain) => {
                let last = copy_range(plain.as_slice(), self.taken.len(), plain.len());
                copy_into(output, last.as_slice());
                Ok(())
            },
            None => Err(Error::VerificationFailed),
        }
    }
}

impl<'a, C: StreamCipher + 'a, M: NonceMac + 'a, H: GenericHash + 'a> Online<'a> for General<
    C,
    M,
    H,
> {
    type Encryption = EncryptProcess<'a, C, M, H>;

    type Decryption = DecryptProcess<'a, C, M, H>;

    proof fn streaming_seals_alike(key: Seq<u8>, nonce: Seq<u8>, aad: Seq<u8>, message: Seq<u8>) {
        Self::lengths();
    }

    proof fn streaming_opens_alike(key: Seq<u8>, nonce: Seq<u8>, aad: Seq<u8>, input: Seq<u8>) {
        Self::lengths();
    }

    fn encrypt(&'a self, nonce: &[u8], aad: &[u8]) -> (process: Self::Encryption) {
        let process = EncryptProcess {
            cipher: self,
            nonce: slice_to_vec(nonce),
            aad: slice_to_vec(aad),
            taken: Bytes(Vec::new()),
        };
        proof {
            Self::lengths();
        }
        process
    }

    fn decrypt(&'a self, nonce: &[u8], aad: &[u8]) -> (process: Self::Decryption) {
        let process = DecryptProcess {
            cipher: self,
            nonce: slice_to_vec(nonce),
            aad: slice_to_vec(aad),
            taken: Bytes(Vec::new()),
        };
        proof {
            Self::lengths();
        }
        process
    }
}

} // verus!
