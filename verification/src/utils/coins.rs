//! Random bytes that were drawn beforehand, for a mechanism that asks a
//! generator for its randomness.
//!
//! A mechanism that draws from a generator gives a result that chance decides.
//! Handed the bytes that were drawn, it gives a result that these bytes
//! decide: the draw is made once, by the caller, and the rest can be stated.

use vstd::prelude::*;

use crate::utils::Bytes;

verus! {

/// The first `n` bytes of `left`, with zeros where `left` is shorter.
pub open spec fn handed(left: Seq<u8>, n: nat) -> Seq<u8> {
    Seq::new(
        n,
        |i: int|
            if i < left.len() {
                left[i]
            } else {
                0u8
            },
    )
}

/// What is left of `left` after `n` bytes were handed out.
pub open spec fn kept(left: Seq<u8>, n: nat) -> Seq<u8> {
    if n <= left.len() {
        left.subrange(n as int, left.len() as int)
    } else {
        Seq::empty()
    }
}

/// Four bytes as a word, the first byte the least significant.
pub open spec fn word_of(bytes: Seq<u8>) -> int {
    bytes[0] + 256 * bytes[1] + 65536 * bytes[2] + 16777216 * bytes[3]
}

/// Bytes that are handed out in order, once each. They are wiped when the
/// coins go.
pub struct Coins {
    bytes: Bytes,
    at: usize,
}

impl Coins {
    /// The bytes that are still to be handed out.
    pub closed spec fn left(&self) -> Seq<u8> {
        kept(self.bytes@, self.at as nat)
    }

    /// Coins that hand out `bytes`.
    pub fn new(bytes: Vec<u8>) -> (coins: Coins)
        ensures
            coins.left() == bytes@,
    {
        let coins = Coins { bytes: Bytes(bytes), at: 0 };
        assert(coins.left() =~= bytes@);
        coins
    }

    /// Fills `dest` with the next bytes; where the coins run out, with zeros.
    pub fn hand_out(&mut self, dest: &mut [u8])
        ensures
            final(dest)@ == handed(old(self).left(), old(dest)@.len()),
            final(self).left() == kept(old(self).left(), old(dest)@.len()),
    {
        let n = dest.len();
        let ghost before = self.left();
        let ghost start = self.at;
        let mut i: usize = 0;
        while i < n
            invariant
                i <= n,
                n == dest@.len(),
                before == old(self).left(),
                start == old(self).at,
                self.bytes@ == old(self).bytes@,
                start <= self.at,
                self.at == start + i || self.at >= self.bytes@.len(),
                self.left() == kept(before, i as nat),
                forall|j: int| 0 <= j < i ==> dest@[j] == handed(before, n as nat)[j],
            decreases n - i,
        {
            if self.at < self.bytes.len() {
                let byte = self.bytes.as_slice()[self.at];
                assert(before =~= self.bytes@.subrange(start as int, self.bytes@.len() as int));
                assert(i < before.len() && before[i as int] == byte);
                dest[i] = byte;
                self.at = self.at + 1;
                assert(self.left() =~= kept(before, (i + 1) as nat));
            } else {
                assert(self.left().len() == 0);
                assert(i >= before.len());
                dest[i] = 0;
                assert(self.left() =~= kept(before, (i + 1) as nat));
            }
            i += 1;
        }
        assert(dest@ =~= handed(before, n as nat));
    }
}

impl rand::Rng for Coins {
    /// The next four bytes as a word, the first byte the least significant.
    fn next_u32(&mut self) -> (word: u32)
        ensures
            word == word_of(handed(old(self).left(), 4)),
            final(self).left() == kept(old(self).left(), 4),
    {
        let mut bytes = Bytes(vec![0u8; 4]);
        self.hand_out(bytes.0.as_mut_slice());
        let b0: u32 = bytes.as_slice()[0] as u32;
        let b1: u32 = bytes.as_slice()[1] as u32;
        let b2: u32 = bytes.as_slice()[2] as u32;
        let b3: u32 = bytes.as_slice()[3] as u32;
        b0 + 256 * b1 + 65536 * b2 + 16777216 * b3
    }

    /// The next bytes, as many as `dest` holds.
    fn fill_bytes(&mut self, dest: &mut [u8])
        ensures
            final(dest)@ == handed(old(self).left(), old(dest)@.len()),
            final(self).left() == kept(old(self).left(), old(dest)@.len()),
    {
        self.hand_out(dest)
    }
}

} // verus!
