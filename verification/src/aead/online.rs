//! Incremental authenticated encryption.
//!
//! A process is made for one message, under a key, a nonce and associated
//! data. It is fed input piece by piece: each call of `process` transforms the
//! whole blocks it is given, except the last, and leaves the rest to be handed
//! in again; `finalize` takes what is left, and is the only place where a tag
//! is made or checked. The last block is always withheld, even where it is a
//! full one, because the primitive has to know which block is the last.

use vstd::prelude::*;
use vstd::slice::slice_subrange;

use super::{decrypt_outcome, plain_of, AeadCipher};
use crate::utils::bytes::wipe;
use crate::Error;

verus! {

/// What a process works under.
pub struct Session {
    /// The key.
    pub key: Seq<u8>,
    /// The nonce.
    pub nonce: Seq<u8>,
    /// The associated data.
    pub aad: Seq<u8>,
}

/// The smaller of two lengths.
pub open spec fn shorter(a: nat, b: nat) -> nat {
    if a <= b {
        a
    } else {
        b
    }
}

/// How many of `len` bytes are transformed at once: the whole blocks, but
/// never the last block.
pub open spec fn withholding_take(len: nat, block: nat) -> nat {
    if len == 0 {
        0
    } else if len % block == 0 {
        ((len / block - 1) * block) as nat
    } else {
        (len / block) * block
    }
}

/// How many of `len` bytes of ciphertext and tag are transformed at once: as
/// in encryption, with the tag withheld as well.
pub open spec fn withholding_take_before_tag(len: nat, block: nat, tag: nat) -> nat {
    if len <= tag {
        0
    } else {
        withholding_take((len - tag) as nat, block)
    }
}

/// What is taken is a whole number of blocks, and what is withheld is at least
/// one byte and at most one block.
pub proof fn lemma_take_withholds(len: nat, block: nat)
    requires
        block > 0,
    ensures
        withholding_take(len, block) % block == 0,
        withholding_take(len, block) <= len,
        len > 0 ==> 0 < len - withholding_take(len, block) <= block,
{
    if len > 0 {
        let q = len / block;
        let r = len % block;
        assert(len == q * block + r && 0 <= r < block) by (nonlinear_arith)
            requires
                q == len / block,
                r == len % block,
                block > 0,
        ;
        if r == 0 {
            assert(q >= 1) by (nonlinear_arith)
                requires
                    len == q * block,
                    len > 0,
                    block > 0,
            ;
            assert((q - 1) * block == len - block) by (nonlinear_arith)
                requires
                    len == q * block,
            ;
            assert(((q - 1) * block) % (block as int) == 0) by (nonlinear_arith)
                requires
                    q >= 1,
                    block > 0,
            ;
        } else {
            assert((q * block) % block == 0) by (nonlinear_arith)
                requires
                    block > 0,
            ;
        }
    }
}

/// A whole number of blocks, followed by at least one more byte, is taken
/// whole.
pub proof fn lemma_take_of_blocks_and_more(done: nat, len: nat, block: nat)
    requires
        block > 0,
        done % block == 0,
        done < len,
    ensures
        done <= withholding_take(len, block),
        len <= done + block ==> withholding_take(len, block) == done,
{
    let q = len / block;
    let r = len % block;
    let d = done / block;
    assert(len == q * block + r && 0 <= r < block) by (nonlinear_arith)
        requires
            q == len / block,
            r == len % block,
            block > 0,
    ;
    assert(done == d * block) by (nonlinear_arith)
        requires
            d == done / block,
            done % block == 0,
            block > 0,
    ;
    if r == 0 {
        assert(d < q) by (nonlinear_arith)
            requires
                d * block < q * block,
                block > 0,
        ;
        assert(d * block <= (q - 1) * block) by (nonlinear_arith)
            requires
                d < q,
                block > 0,
        ;
        if len <= done + block {
            assert(q <= d + 1) by (nonlinear_arith)
                requires
                    q * block <= d * block + block,
                    block > 0,
            ;
            assert((q - 1) * block == d * block) by (nonlinear_arith)
                requires
                    q == d + 1,
            ;
        }
    } else {
        assert(d <= q) by (nonlinear_arith)
            requires
                d * block < q * block + r,
                r < block,
                block > 0,
        ;
        assert(d * block <= q * block) by (nonlinear_arith)
            requires
                d <= q,
                block > 0,
        ;
        if len <= done + block {
            assert(q <= d) by (nonlinear_arith)
                requires
                    q * block + r <= d * block + block,
                    r > 0,
                    block > 0,
            ;
            assert(q * block == d * block) by (nonlinear_arith)
                requires
                    q == d,
            ;
        }
    }
}

/// How many bytes a call of `process` transforms when encrypting, given the
/// lengths of its two buffers.
pub fn encrypt_take(input_len: usize, output_len: usize, block: usize) -> (take: usize)
    requires
        block > 0,
    ensures
        take == withholding_take(shorter(input_len as nat, output_len as nat), block as nat),
{
    let len = if input_len <= output_len {
        input_len
    } else {
        output_len
    };
    proof {
        lemma_take_withholds(len as nat, block as nat);
    }
    if len == 0 {
        0
    } else if len % block == 0 {
        (len / block - 1) * block
    } else {
        len / block * block
    }
}

/// How many bytes a call of `process` transforms when decrypting, given the
/// lengths of its two buffers: the output buffer may be shorter than the
/// input by the tag.
pub fn decrypt_take(input_len: usize, output_len: usize, block: usize, tag: usize) -> (take: usize)
    requires
        block > 0,
    ensures
        take == withholding_take_before_tag(
            shorter(input_len as nat, output_len as nat + tag as nat),
            block as nat,
            tag as nat,
        ),
{
    let len = if output_len <= usize::MAX - tag && output_len + tag < input_len {
        output_len + tag
    } else {
        input_len
    };
    if len <= tag {
        0
    } else {
        let body = len - tag;
        proof {
            lemma_take_withholds(body as nat, block as nat);
        }
        if body % block == 0 {
            (body / block - 1) * block
        } else {
            body / block * block
        }
    }
}

/// The check that `finalize` makes when encrypting: the output buffer must be
/// longer than the input by the tag.
pub fn check_encrypt_lengths(input_len: usize, output_len: usize, tag: usize) -> (r: Result<
    (),
    Error,
>)
    ensures
        r is Ok <==> input_len + tag == output_len,
        r matches Err(e) ==> e == Error::Length,
{
    if output_len < tag || output_len - tag != input_len {
        Err(Error::Length)
    } else {
        Ok(())
    }
}

/// The check that `finalize` makes when decrypting: the output buffer must be
/// shorter than the input by the tag.
pub fn check_decrypt_lengths(input_len: usize, output_len: usize, tag: usize) -> (r: Result<
    (),
    Error,
>)
    ensures
        r is Ok <==> input_len == output_len + tag,
        r matches Err(e) ==> e == Error::Length,
{
    if input_len < tag || input_len - tag != output_len {
        Err(Error::Length)
    } else {
        Ok(())
    }
}

/// The check that `finalize` makes when encrypting under a mode that cannot
/// seal the empty message: there must be input, and the output buffer must be
/// longer than it by the tag.
pub fn check_nonempty_encrypt_lengths(input_len: usize, output_len: usize, tag: usize) -> (r:
    Result<(), Error>)
    ensures
        r is Ok <==> input_len > 0 && input_len + tag == output_len,
        r matches Err(e) ==> e == Error::Length,
{
    if input_len == 0 {
        Err(Error::Length)
    } else {
        check_encrypt_lengths(input_len, output_len, tag)
    }
}

/// The check that `finalize` makes when decrypting under a mode that cannot
/// seal the empty message: there must be input beyond the tag, and the output
/// buffer must be shorter than the input by the tag.
pub fn check_nonempty_decrypt_lengths(input_len: usize, output_len: usize, tag: usize) -> (r:
    Result<(), Error>)
    ensures
        r is Ok <==> input_len > tag && input_len == output_len + tag,
        r matches Err(e) ==> e == Error::Length,
{
    if input_len <= tag {
        Err(Error::Length)
    } else {
        check_decrypt_lengths(input_len, output_len, tag)
    }
}

/// A process that encrypts one message piece by piece.
pub trait Encryption<'a>: Sized {
    /// The length of the primitive's blocks.
    spec fn block_length() -> nat;

    /// The length of the tag.
    spec fn tag_length() -> nat;

    /// Whether the process can go on.
    spec fn valid(&self) -> bool;

    /// What the process works under.
    spec fn session(&self) -> Session;

    /// The input that the process has transformed so far.
    spec fn consumed(&self) -> Seq<u8>;

    /// What the message as a whole is sealed to: its ciphertext, then the tag.
    spec fn sealed(session: Session, message: Seq<u8>) -> Seq<u8>;

    /// A process that can go on has transformed whole blocks only.
    proof fn valid_is_aligned(&self)
        requires
            self.valid(),
        ensures
            Self::block_length() > 0,
            self.consumed().len() % Self::block_length() == 0,
    ;

    /// Sealing adds the tag's length.
    proof fn sealed_has_length(session: Session, message: Seq<u8>)
        ensures
            Self::sealed(session, message).len() == message.len() + Self::tag_length(),
    ;

    /// The ciphertext of the blocks before the last depends on nothing that
    /// comes after them: two messages that begin with the same `k` bytes, a
    /// whole number of blocks that ends before the last block of either, are
    /// sealed to the same first `k` bytes.
    proof fn sealed_is_online(session: Session, first: Seq<u8>, second: Seq<u8>, k: nat)
        requires
            Self::block_length() > 0,
            k % Self::block_length() == 0,
            k <= withholding_take(first.len(), Self::block_length()),
            k <= withholding_take(second.len(), Self::block_length()),
            first.subrange(0, k as int) == second.subrange(0, k as int),
        ensures
            Self::sealed(session, first).subrange(0, k as int) == Self::sealed(
                session,
                second,
            ).subrange(0, k as int),
    ;

    /// Transforms the whole blocks of `input` but the last into the front of
    /// `output`, and returns that front; the rest of `output` is left as it
    /// was. What was not taken is to be handed in again, at the front of the
    /// next input.
    fn process<'b>(&mut self, input: &[u8], output: &'b mut [u8]) -> (done: &'b [u8])
        requires
            old(self).valid(),
        ensures
            final(self).valid(),
            final(self).session() == old(self).session(),
            done@.len() == withholding_take(
                shorter(input@.len(), old(output)@.len()),
                Self::block_length(),
            ),
            final(self).consumed() == old(self).consumed() + input@.subrange(
                0,
                done@.len() as int,
            ),
            final(output)@.len() == old(output)@.len(),
            done@ == final(output)@.subrange(0, done@.len() as int),
            done@ == Self::sealed(old(self).session(), final(self).consumed().push(0u8)).subrange(
                old(self).consumed().len() as int,
                final(self).consumed().len() as int,
            ),
            final(output)@.subrange(done@.len() as int, old(output)@.len() as int) == old(
                output,
            )@.subrange(done@.len() as int, old(output)@.len() as int),
    ;

    /// Transforms what is left of the message and appends the tag. `output`
    /// must be longer than `input` by the tag.
    fn finalize(self, input: &[u8], output: &mut [u8]) -> (r: Result<(), Error>)
        requires
            self.valid(),
        ensures
            r is Ok <==> input@.len() + Self::tag_length() == old(output)@.len(),
            r matches Err(e) ==> e == Error::Length && final(output)@ == old(output)@,
            r is Ok ==> final(output)@ == Self::sealed(
                self.session(),
                self.consumed() + input@,
            ).subrange(
                self.consumed().len() as int,
                (self.consumed().len() + input@.len() + Self::tag_length()) as int,
            ),
    ;
}

/// A process that decrypts one message piece by piece.
pub trait Decryption<'a>: Sized {
    /// The length of the primitive's blocks.
    spec fn block_length() -> nat;

    /// The length of the tag.
    spec fn tag_length() -> nat;

    /// Whether the process can go on.
    spec fn valid(&self) -> bool;

    /// What the process works under.
    spec fn session(&self) -> Session;

    /// The input that the process has transformed so far.
    spec fn consumed(&self) -> Seq<u8>;

    /// What a ciphertext decrypts to, whether or not a tag for it verifies.
    spec fn plain(session: Session, ciphertext: Seq<u8>) -> Seq<u8>;

    /// Whether `tag` is the tag of `ciphertext`.
    spec fn verifies(session: Session, ciphertext: Seq<u8>, tag: Seq<u8>) -> bool;

    /// A process that can go on has transformed whole blocks only.
    proof fn valid_is_aligned(&self)
        requires
            self.valid(),
        ensures
            Self::block_length() > 0,
            self.consumed().len() % Self::block_length() == 0,
    ;

    /// Decrypting keeps the length.
    proof fn plain_has_length(session: Session, ciphertext: Seq<u8>)
        ensures
            Self::plain(session, ciphertext).len() == ciphertext.len(),
    ;

    /// The plaintext of the blocks before the last depends on nothing that
    /// comes after them.
    proof fn plain_is_online(session: Session, first: Seq<u8>, second: Seq<u8>, k: nat)
        requires
            Self::block_length() > 0,
            k % Self::block_length() == 0,
            k <= withholding_take(first.len(), Self::block_length()),
            k <= withholding_take(second.len(), Self::block_length()),
            first.subrange(0, k as int) == second.subrange(0, k as int),
        ensures
            Self::plain(session, first).subrange(0, k as int) == Self::plain(
                session,
                second,
            ).subrange(0, k as int),
    ;

    /// Transforms the whole blocks of `input` before the last block and the
    /// tag into the front of `output`, and returns that front; the rest of
    /// `output` is left as it was. What was not taken is to be handed in
    /// again, at the front of the next input.
    fn process<'b>(&mut self, input: &[u8], output: &'b mut [u8]) -> (done: &'b [u8])
        requires
            old(self).valid(),
        ensures
            final(self).valid(),
            final(self).session() == old(self).session(),
            done@.len() == withholding_take_before_tag(
                shorter(input@.len(), old(output)@.len() + Self::tag_length()),
                Self::block_length(),
                Self::tag_length(),
            ),
            final(self).consumed() == old(self).consumed() + input@.subrange(
                0,
                done@.len() as int,
            ),
            final(output)@.len() == old(output)@.len(),
            done@ == final(output)@.subrange(0, done@.len() as int),
            done@ == Self::plain(old(self).session(), final(self).consumed().push(0u8)).subrange(
                old(self).consumed().len() as int,
                final(self).consumed().len() as int,
            ),
            final(output)@.subrange(done@.len() as int, old(output)@.len() as int) == old(
                output,
            )@.subrange(done@.len() as int, old(output)@.len() as int),
    ;

    /// Checks the tag at the end of `input` against the whole message, and
    /// only where it verifies writes the plaintext of what is left into
    /// `output`, which must be shorter than `input` by the tag.
    fn finalize(self, input: &[u8], output: &mut [u8]) -> (r: Result<(), Error>)
        requires
            self.valid(),
        ensures
            (r, final(output)@) == finalize_outcome(
                Self::tag_length(),
                input@.len(),
                old(output)@,
                input@.len() >= Self::tag_length() && Self::verifies(
                    self.session(),
                    self.consumed() + input@.subrange(0, input@.len() - Self::tag_length()),
                    input@.subrange(input@.len() - Self::tag_length(), input@.len() as int),
                ),
                Self::plain(
                    self.session(),
                    self.consumed() + input@.subrange(0, input@.len() - Self::tag_length()),
                ).subrange(
                    self.consumed().len() as int,
                    self.consumed().len() + input@.len() - Self::tag_length(),
                ),
            ),
    ;
}

/// What `finalize` returns when decrypting, and what it leaves in the output
/// buffer: a length error where the buffer has the wrong length, a failed
/// verification where the tag does not verify, and in both cases the buffer
/// untouched; else the plaintext.
pub open spec fn finalize_outcome(
    tag_length: nat,
    input_length: nat,
    output: Seq<u8>,
    verified: bool,
    plain: Seq<u8>,
) -> (Result<(), Error>, Seq<u8>) {
    if input_length != output.len() + tag_length {
        (Err(Error::Length), output)
    } else if verified {
        (Ok(()), plain)
    } else {
        (Err(Error::VerificationFailed), output)
    }
}

/// An authenticated cipher that can also work piece by piece.
pub trait Online<'a>: AeadCipher {
    /// The process that encrypts.
    type Encryption: Encryption<'a>;

    /// The process that decrypts.
    type Decryption: Decryption<'a>;

    /// Piece by piece or at once, the cipher seals a message to the same
    /// bytes.
    proof fn streaming_seals_alike(key: Seq<u8>, nonce: Seq<u8>, aad: Seq<u8>, message: Seq<u8>)
        ensures
            <Self::Encryption as Encryption<'a>>::tag_length() == Self::TAG_LENGTH,
            <Self::Encryption as Encryption<'a>>::sealed(Session { key, nonce, aad }, message)
                == Self::sealed(key, nonce, aad, message),
    ;

    /// Piece by piece or at once, the cipher opens the same inputs, to the
    /// same plaintexts.
    proof fn streaming_opens_alike(key: Seq<u8>, nonce: Seq<u8>, aad: Seq<u8>, input: Seq<u8>)
        requires
            input.len() >= Self::TAG_LENGTH,
        ensures
            <Self::Decryption as Decryption<'a>>::tag_length() == Self::TAG_LENGTH,
            Self::opened(key, nonce, aad, input) == (if <Self::Decryption as Decryption<
                'a,
            >>::verifies(
                Session { key, nonce, aad },
                input.subrange(0, input.len() - Self::TAG_LENGTH),
                input.subrange(input.len() - Self::TAG_LENGTH, input.len() as int),
            ) {
                Some(
                    <Self::Decryption as Decryption<'a>>::plain(
                        Session { key, nonce, aad },
                        input.subrange(0, input.len() - Self::TAG_LENGTH),
                    ),
                )
            } else {
                None
            }),
    ;

    /// A process that encrypts one message under `nonce` and `aad`.
    fn encrypt(&'a self, nonce: &[u8], aad: &[u8]) -> (process: Self::Encryption)
        requires
            self.valid(),
            nonce@.len() == Self::NONCE_LENGTH,
        ensures
            process.valid(),
            process.consumed() == Seq::<u8>::empty(),
            process.session() == (Session { key: self.key(), nonce: nonce@, aad: aad@ }),
    ;

    /// A process that decrypts one message under `nonce` and `aad`.
    fn decrypt(&'a self, nonce: &[u8], aad: &[u8]) -> (process: Self::Decryption)
        requires
            self.valid(),
            nonce@.len() == Self::NONCE_LENGTH,
        ensures
            process.valid(),
            process.consumed() == Seq::<u8>::empty(),
            process.session() == (Session { key: self.key(), nonce: nonce@, aad: aad@ }),
    ;
}

/// Seals `input` piece by piece. The pieces end where `cuts` says: at each cut
/// that lies beyond what has been transformed, `process` is handed everything
/// from there up to the cut, so that what it withheld is handed in again with
/// the next piece; `finalize` gets what is left. However the cuts are set, the
/// result is what the cipher seals at once.
pub fn seal_streaming<'a, AE: Online<'a>>(
    cipher: &'a AE,
    nonce: &[u8],
    aad: &[u8],
    input: &[u8],
    cuts: &[usize],
) -> (out: Vec<u8>)
    requires
        cipher.valid(),
        nonce@.len() == AE::NONCE_LENGTH,
        input@.len() + AE::TAG_LENGTH <= usize::MAX,
    ensures
        out@ == AE::sealed(cipher.key(), nonce@, aad@, input@),
{
    let n = input.len();
    let mut process = cipher.encrypt(nonce, aad);
    let ghost session = process.session();
    let ghost block = <AE::Encryption as Encryption<'a>>::block_length();
    proof {
        process.valid_is_aligned();
        AE::streaming_seals_alike(cipher.key(), nonce@, aad@, input@);
    }
    let mut out: Vec<u8> = Vec::new();
    let mut pos: usize = 0;
    let mut i: usize = 0;
    while i < cuts.len()
        invariant
            i <= cuts@.len(),
            n == input@.len(),
            block > 0,
            block == <AE::Encryption as Encryption<'a>>::block_length(),
            process.valid(),
            process.session() == session,
            process.consumed() == input@.subrange(0, pos as int),
            pos <= n,
            pos == 0 || pos < n,
            out@ == <AE::Encryption as Encryption<'a>>::sealed(
                session,
                input@.subrange(0, pos as int).push(0u8),
            ).subrange(0, pos as int),
        decreases cuts@.len() - i,
    {
        let cut = cuts[i];
        if pos < cut && cut <= n {
            let piece = slice_subrange(input, pos, cut);
            let len = cut - pos;
            let mut buffer = vec![0u8; len];
            let ghost before = input@.subrange(0, pos as int);
            proof {
                process.valid_is_aligned();
                lemma_take_withholds(len as nat, block);
            }
            let done = process.process(piece, buffer.as_mut_slice()).len();
            let ghost after = input@.subrange(0, pos + done);
            proof {
                assert(piece@.subrange(0, done as int) =~= input@.subrange(
                    pos as int,
                    pos + done,
                ));
                assert(process.consumed() =~= after);
                process.valid_is_aligned();
                assert(after.subrange(0, pos as int) =~= before);
                lemma_stream_grows::<AE::Encryption>(session, before, after);
            }
            let fresh = slice_subrange(buffer.as_slice(), 0, done);
            out.extend_from_slice(fresh);
            pos = pos + done;
        }
        i += 1;
    }
    let rest = slice_subrange(input, pos, n);
    let last_length = n - pos + AE::TAG_LENGTH;
    let mut last = vec![0u8; last_length];
    let ghost before = input@.subrange(0, pos as int);
    proof {
        process.valid_is_aligned();
        assert(before + rest@ =~= input@);
        lemma_stream_ends::<AE::Encryption>(session, before, input@);
    }
    let r = process.finalize(rest, last.as_mut_slice());
    out.append(&mut last);
    out
}

/// One more call of `process` leaves what was emitted before as it was: what
/// stood for the blocks `before` still stands for them in the longer `after`.
proof fn lemma_stream_grows<'a, E: Encryption<'a>>(session: Session, before: Seq<u8>, after: Seq<u8>)
    requires
        E::block_length() > 0,
        before.len() % E::block_length() == 0,
        after.len() % E::block_length() == 0,
        before.len() <= after.len(),
        after.subrange(0, before.len() as int) == before,
    ensures
        E::sealed(session, before.push(0u8)).subrange(0, before.len() as int) + E::sealed(
            session,
            after.push(0u8),
        ).subrange(before.len() as int, after.len() as int) == E::sealed(
            session,
            after.push(0u8),
        ).subrange(0, after.len() as int),
{
    let block = E::block_length();
    let k = before.len();
    lemma_take_of_blocks_and_more(k, k + 1, block);
    lemma_take_of_blocks_and_more(k, after.len() + 1, block);
    assert(before.push(0u8).subrange(0, k as int) =~= after.push(0u8).subrange(0, k as int));
    E::sealed_is_online(session, before.push(0u8), after.push(0u8), k);
    E::sealed_has_length(session, after.push(0u8));
    let whole = E::sealed(session, after.push(0u8));
    assert(whole.subrange(0, k as int) + whole.subrange(k as int, after.len() as int)
        =~= whole.subrange(0, after.len() as int));
}

/// What was emitted for the blocks `before` is how the sealed message begins.
proof fn lemma_stream_ends<'a, E: Encryption<'a>>(session: Session, before: Seq<u8>, message: Seq<u8>)
    requires
        E::block_length() > 0,
        before.len() % E::block_length() == 0,
        before.len() == 0 || before.len() < message.len(),
        before.len() <= message.len(),
        message.subrange(0, before.len() as int) == before,
    ensures
        E::sealed(session, before.push(0u8)).subrange(0, before.len() as int) + E::sealed(
            session,
            message,
        ).subrange(before.len() as int, (message.len() + E::tag_length()) as int) == E::sealed(
            session,
            message,
        ),
{
    let block = E::block_length();
    let k = before.len();
    E::sealed_has_length(session, message);
    let whole = E::sealed(session, message);
    if k > 0 {
        lemma_take_of_blocks_and_more(k, k + 1, block);
        lemma_take_of_blocks_and_more(k, message.len(), block);
        assert(before.push(0u8).subrange(0, k as int) =~= message.subrange(0, k as int));
        E::sealed_is_online(session, before.push(0u8), message, k);
    } else {
        assert(E::sealed(session, before.push(0u8)).subrange(0, 0) =~= whole.subrange(0, 0));
    }
    assert(whole.subrange(0, k as int) + whole.subrange(
        k as int,
        (message.len() + E::tag_length()) as int,
    ) =~= whole);
}

/// Opens `input` piece by piece, with the pieces cut as in `seal_streaming`.
/// However the cuts are set, the result is what the cipher opens at once.
/// The plaintext of the earlier blocks is wiped where the tag does not
/// verify in the end.
pub fn open_streaming<'a, AE: Online<'a>>(
    cipher: &'a AE,
    nonce: &[u8],
    aad: &[u8],
    input: &[u8],
    cuts: &[usize],
) -> (r: Result<Vec<u8>, Error>)
    requires
        cipher.valid(),
        nonce@.len() == AE::NONCE_LENGTH,
    ensures
        plain_of(r) == decrypt_outcome(
            AE::TAG_LENGTH as nat,
            input@.len(),
            AE::opened(cipher.key(), nonce@, aad@, input@),
        ),
{
    let n = input.len();
    if n < AE::TAG_LENGTH {
        return Err(Error::Length);
    }
    let body = n - AE::TAG_LENGTH;
    let mut process = cipher.decrypt(nonce, aad);
    let ghost session = process.session();
    let ghost block = <AE::Decryption as Decryption<'a>>::block_length();
    let ghost ciphertext = input@.subrange(0, body as int);
    proof {
        process.valid_is_aligned();
        AE::streaming_opens_alike(cipher.key(), nonce@, aad@, input@);
    }
    let mut out: Vec<u8> = Vec::new();
    let mut pos: usize = 0;
    let mut i: usize = 0;
    while i < cuts.len()
        invariant
            i <= cuts@.len(),
            n == input@.len(),
            body + AE::TAG_LENGTH == n,
            <AE::Decryption as Decryption<'a>>::tag_length() == AE::TAG_LENGTH,
            block > 0,
            block == <AE::Decryption as Decryption<'a>>::block_length(),
            process.valid(),
            process.session() == session,
            process.consumed() == input@.subrange(0, pos as int),
            pos <= body,
            pos == 0 || pos < body,
            out@ == <AE::Decryption as Decryption<'a>>::plain(
                session,
                input@.subrange(0, pos as int).push(0u8),
            ).subrange(0, pos as int),
        decreases cuts@.len() - i,
    {
        let cut = cuts[i];
        if pos < cut && cut <= n {
            let piece = slice_subrange(input, pos, cut);
            let len = cut - pos;
            let mut buffer = vec![0u8; len];
            let ghost before = input@.subrange(0, pos as int);
            proof {
                process.valid_is_aligned();
                if len > AE::TAG_LENGTH {
                    lemma_take_withholds((len - AE::TAG_LENGTH) as nat, block);
                }
            }
            let done = process.process(piece, buffer.as_mut_slice()).len();
            let ghost after = input@.subrange(0, pos + done);
            proof {
                assert(piece@.subrange(0, done as int) =~= input@.subrange(
                    pos as int,
                    pos + done,
                ));
                assert(process.consumed() =~= after);
                process.valid_is_aligned();
                assert(after.subrange(0, pos as int) =~= before);
                lemma_plain_grows::<AE::Decryption>(session, before, after);
            }
            let fresh = slice_subrange(buffer.as_slice(), 0, done);
            out.extend_from_slice(fresh);
            pos = pos + done;
        }
        i += 1;
    }
    let rest = slice_subrange(input, pos, n);
    let last_length = body - pos;
    let mut last = vec![0u8; last_length];
    let ghost before = input@.subrange(0, pos as int);
    proof {
        process.valid_is_aligned();
        assert(before + rest@.subrange(0, rest@.len() - AE::TAG_LENGTH) =~= ciphertext);
        assert(rest@.subrange(rest@.len() - AE::TAG_LENGTH, rest@.len() as int) =~= input@.subrange(
            body as int,
            n as int,
        ));
        assert(ciphertext.subrange(0, pos as int) =~= before);
        lemma_plain_ends::<AE::Decryption>(session, before, ciphertext);
    }
    match process.finalize(rest, last.as_mut_slice()) {
        Ok(()) => {
            out.append(&mut last);
            Ok(out)
        },
        Err(e) => {
            wipe(&mut out);
            Err(e)
        },
    }
}

/// One more call of `process` leaves what was emitted before as it was.
proof fn lemma_plain_grows<'a, D: Decryption<'a>>(session: Session, before: Seq<u8>, after: Seq<u8>)
    requires
        D::block_length() > 0,
        before.len() % D::block_length() == 0,
        after.len() % D::block_length() == 0,
        before.len() <= after.len(),
        after.subrange(0, before.len() as int) == before,
    ensures
        D::plain(session, before.push(0u8)).subrange(0, before.len() as int) + D::plain(
            session,
            after.push(0u8),
        ).subrange(before.len() as int, after.len() as int) == D::plain(
            session,
            after.push(0u8),
        ).subrange(0, after.len() as int),
{
    let block = D::block_length();
    let k = before.len();
    lemma_take_of_blocks_and_more(k, k + 1, block);
    lemma_take_of_blocks_and_more(k, after.len() + 1, block);
    assert(before.push(0u8).subrange(0, k as int) =~= after.push(0u8).subrange(0, k as int));
    D::plain_is_online(session, before.push(0u8), after.push(0u8), k);
    D::plain_has_length(session, after.push(0u8));
    let whole = D::plain(session, after.push(0u8));
    assert(whole.subrange(0, k as int) + whole.subrange(k as int, after.len() as int)
        =~= whole.subrange(0, after.len() as int));
}

/// What was emitted for the blocks `before` is how the plaintext begins.
proof fn lemma_plain_ends<'a, D: Decryption<'a>>(
    session: Session,
    before: Seq<u8>,
    ciphertext: Seq<u8>,
)
    requires
        D::block_length() > 0,
        before.len() % D::block_length() == 0,
        before.len() == 0 || before.len() < ciphertext.len(),
        before.len() <= ciphertext.len(),
        ciphertext.subrange(0, before.len() as int) == before,
    ensures
        D::plain(session, before.push(0u8)).subrange(0, before.len() as int) + D::plain(
            session,
            ciphertext,
        ).subrange(before.len() as int, ciphertext.len() as int) == D::plain(session, ciphertext),
{
    let block = D::block_length();
    let k = before.len();
    D::plain_has_length(session, ciphertext);
    let whole = D::plain(session, ciphertext);
    if k > 0 {
        lemma_take_of_blocks_and_more(k, k + 1, block);
        lemma_take_of_blocks_and_more(k, ciphertext.len(), block);
        assert(before.push(0u8).subrange(0, k as int) =~= ciphertext.subrange(0, k as int));
        D::plain_is_online(session, before.push(0u8), ciphertext, k);
    } else {
        assert(D::plain(session, before.push(0u8)).subrange(0, 0) =~= whole.subrange(0, 0));
    }
    assert(whole.subrange(0, k as int) + whole.subrange(k as int, ciphertext.len() as int)
        =~= whole);
}

} // verus!
