//! Generators of nonces.

use vstd::prelude::*;

use crate::seqs::zeros;

verus! {

/// The eight bytes of `v`, most significant first.
pub open spec fn be_bytes(v: u64) -> Seq<u8> {
    seq![
        (v >> 56) as u8,
        ((v >> 48) & 0xff) as u8,
        ((v >> 40) & 0xff) as u8,
        ((v >> 32) & 0xff) as u8,
        ((v >> 24) & 0xff) as u8,
        ((v >> 16) & 0xff) as u8,
        ((v >> 8) & 0xff) as u8,
        (v & 0xff) as u8,
    ]
}

/// The eight bytes of `v`, most significant first.
fn be_u64(v: u64) -> (out: [u8; 8])
    ensures
        out@ == be_bytes(v),
{
    let out = [
        (v >> 56) as u8,
        ((v >> 48) & 0xff) as u8,
        ((v >> 40) & 0xff) as u8,
        ((v >> 32) & 0xff) as u8,
        ((v >> 24) & 0xff) as u8,
        ((v >> 16) & 0xff) as u8,
        ((v >> 8) & 0xff) as u8,
        (v & 0xff) as u8,
    ];
    assert(out@ =~= be_bytes(v));
    out
}

/// Something that hands out nonces.
pub trait GenNonce: Sized {
    /// Whether the generator can fill a nonce of `len` bytes now.
    spec fn can_fill(&self, len: nat) -> bool;

    /// Whether the generator `before`, filling a buffer that holds `buffer`,
    /// can leave it holding `nonce` and be left as `after` itself.
    spec fn fills(before: Self, after: Self, buffer: Seq<u8>, nonce: Seq<u8>) -> bool;

    /// Writes the next nonce into `nonce`.
    fn fill(&mut self, nonce: &mut [u8])
        requires
            old(self).can_fill(old(nonce)@.len()),
        ensures
            final(nonce)@.len() == old(nonce)@.len(),
            Self::fills(*old(self), *final(self), old(nonce)@, final(nonce)@),
    ;

    /// The next nonce, `len` bytes long: what the generator writes into a
    /// buffer of zeros.
    fn gen(&mut self, len: usize) -> (out: Vec<u8>)
        requires
            old(self).can_fill(len as nat),
        ensures
            out@.len() == len,
            Self::fills(*old(self), *final(self), zeros(len as nat), out@),
    {
        let mut output = vec![0u8; len];
        assert(output@ =~= zeros(len as nat));
        self.fill(output.as_mut_slice());
        output
    }
}

/// A nonce generator that counts: each nonce ends in the counter's value,
/// most significant byte first, and the counter then goes up by one.
#[derive(Debug)]
pub struct Counter(pub u64);

impl Clone for Counter {
    fn clone(&self) -> (c: Counter)
        ensures
            c.0 == self.0,
    {
        Counter(self.0)
    }
}

impl Default for Counter {
    fn default() -> (c: Counter)
        ensures
            c.0 == 0,
    {
        Counter(0)
    }
}

impl GenNonce for Counter {
    /// A nonce must have room for the eight bytes, and the counter must not
    /// have run out.
    open spec fn can_fill(&self, len: nat) -> bool {
        len >= 8 && self.0 < u64::MAX
    }

    /// The last eight bytes become the counter's value, the bytes before them
    /// stay, and the counter goes up by one.
    open spec fn fills(before: Self, after: Self, buffer: Seq<u8>, nonce: Seq<u8>) -> bool {
        &&& nonce == buffer.subrange(0, buffer.len() - 8) + be_bytes(before.0)
        &&& after.0 == before.0 + 1
    }

    fn fill(&mut self, nonce: &mut [u8])
        ensures
            final(nonce)@ == old(nonce)@.subrange(0, old(nonce)@.len() - 8) + be_bytes(
                old(self).0,
            ),
            final(self).0 == old(self).0 + 1,
    {
        let counter = be_u64(self.0);
        let at = nonce.len() - 8;
        let mut i: usize = 0;
        while i < 8
            invariant
                i <= 8,
                at <= usize::MAX - 8,
                at + 8 == nonce@.len(),
                nonce@.len() == old(nonce)@.len(),
                counter@ == be_bytes(old(self).0),
                forall|j: int| 0 <= j < at + i ==> nonce@[j] == (old(nonce)@.subrange(0, at as int)
                    + counter@)[j],
            decreases 8 - i,
        {
            nonce[at + i] = counter[i];
            i += 1;
        }
        assert(nonce@ =~= old(nonce)@.subrange(0, at as int) + counter@);
        self.0 = self.0 + 1;
    }

    fn gen(&mut self, len: usize) -> (out: Vec<u8>)
        ensures
            out@ == zeros((len - 8) as nat) + be_bytes(old(self).0),
            final(self).0 == old(self).0 + 1,
    {
        let mut output = vec![0u8; len];
        assert(output@ =~= zeros(len as nat));
        self.fill(output.as_mut_slice());
        assert(output@ =~= zeros((len - 8) as nat) + be_bytes(old(self).0));
        output
    }
}

/// `rand::OsRng::new`: a handle on the operating system's generator, or
/// nothing where the system refuses one.
#[verifier::external_body]
fn open_system_rng() -> (r: Option<rand::OsRng>) {
    rand::OsRng::new().ok()
}

/// `rand::Rng::fill_bytes` on the operating system's generator. Nothing is
/// claimed of the bytes: only that there are as many as before. (Where the
/// system, once opened, fails to give bytes, `rand` panics; no input decides
/// that.)
#[verifier::external_body]
fn fill_from_system(rng: &mut rand::OsRng, buf: &mut [u8])
    ensures
        final(buf)@.len() == old(buf)@.len(),
{
    rand::Rng::fill_bytes(rng, buf)
}

/// The operating system's random number generator.
pub struct SystemRng {
    inner: rand::OsRng,
}

impl SystemRng {
    /// Opens the generator; `None` where the system has none to give.
    pub fn new() -> (r: Option<SystemRng>) {
        match open_system_rng() {
            Some(inner) => Some(SystemRng { inner }),
            None => None,
        }
    }
}

impl GenNonce for SystemRng {
    /// The system's generator fills a nonce of any length.
    open spec fn can_fill(&self, len: nat) -> bool {
        true
    }

    /// Chance decides the bytes: all that holds is that there are as many as
    /// before.
    open spec fn fills(before: Self, after: Self, buffer: Seq<u8>, nonce: Seq<u8>) -> bool {
        nonce.len() == buffer.len()
    }

    fn fill(&mut self, nonce: &mut [u8]) {
        fill_from_system(&mut self.inner, nonce);
    }
}

/// `rand::OsRng`, the handle on the operating system's generator. Nothing is
/// known of what is inside.
#[verifier::external_type_specification]
#[verifier::external_body]
pub struct ExOsRng(rand::OsRng);

} // verus!
