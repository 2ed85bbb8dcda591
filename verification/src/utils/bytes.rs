//! A byte buffer for secrets: compared in constant time, wiped when it goes.

use vstd::prelude::*;
use vstd::slice::slice_to_vec;
use vstd::std_specs::cmp::PartialEqSpecImpl;
use vstd::std_specs::convert::FromSpecImpl;

use crate::seqs::zeros;
use crate::utils::nonce::GenNonce;

verus! {

/// `seckey::CmpKey::from(a) == b`, which hands both slices to `memsec::memeq`:
/// every byte of the shorter length is read and the differences are or-ed
/// together, so the time taken does not tell where two slices first differ.
/// The contract claims only the answer: whether the two hold the same bytes.
#[verifier::external_body]
pub(crate) fn constant_time_eq(a: &[u8], b: &[u8]) -> (same: bool)
    ensures
        same == (a@ == b@),
    no_unwind
{
    seckey::CmpKey::from(a) == b
}

/// `seckey::zero` on the bytes of a vector: `memsec::memzero` writes a zero
/// over every byte with writes that the compiler may not drop. The length
/// stays.
#[verifier::external_body]
pub(crate) fn wipe(buf: &mut Vec<u8>)
    ensures
        final(buf)@ == zeros(old(buf)@.len()),
    opens_invariants none
    no_unwind
{
    seckey::zero(buf.as_mut_slice())
}

/// `str::repeat` on an asterisk: as many asterisks as asked for.
#[verifier::external_body]
pub(crate) fn asterisks(n: usize) -> (s: String)
    ensures
        s@ == Seq::new(n as nat, |i: int| '*'),
{
    "*".repeat(n)
}

/// Bytes that are to be kept secret.
pub struct Bytes(pub Vec<u8>);

impl View for Bytes {
    type V = Seq<u8>;

    open spec fn view(&self) -> Seq<u8> {
        self.0@
    }
}

impl Bytes {
    /// A buffer that holds a copy of `input`.
    #[inline]
    pub fn new(input: &[u8]) -> (b: Bytes)
        ensures
            b@ == input@,
    {
        Bytes::from(slice_to_vec(input))
    }

    /// A buffer of `len` bytes drawn from `rng`.
    #[inline]
    pub fn random<G: GenNonce>(rng: &mut G, len: usize) -> (b: Bytes)
        requires
            old(rng).can_fill(len as nat),
        ensures
            b@.len() == len,
            G::fills(*old(rng), *final(rng), zeros(len as nat), b@),
    {
        Bytes::from(rng.gen(len))
    }

    /// The bytes.
    pub fn as_slice(&self) -> (s: &[u8])
        ensures
            s@ == self@,
    {
        self.0.as_slice()
    }

    /// How many bytes there are.
    pub fn len(&self) -> (n: usize)
        ensures
            n == self@.len(),
    {
        self.0.len()
    }

    /// The buffer as it may be shown: an asterisk for each byte.
    pub fn masked(&self) -> (s: String)
        ensures
            s@ == Seq::new(self@.len(), |i: int| '*'),
    {
        asterisks(self.0.len())
    }

    /// Overwrites every byte with zero.
    pub fn clear(&mut self)
        ensures
            final(self)@ == zeros(old(self)@.len()),
        opens_invariants none
        no_unwind
    {
        wipe(&mut self.0);
    }
}

impl From<Vec<u8>> for Bytes {
    fn from(t: Vec<u8>) -> (b: Bytes) {
        Bytes(t)
    }
}

impl FromSpecImpl<Vec<u8>> for Bytes {
    open spec fn obeys_from_spec() -> bool {
        true
    }

    open spec fn from_spec(t: Vec<u8>) -> Bytes {
        Bytes(t)
    }
}

impl Clone for Bytes {
    fn clone(&self) -> (b: Bytes)
        ensures
            b@ == self@,
    {
        Bytes(slice_to_vec(self.0.as_slice()))
    }
}

impl core::ops::Deref for Bytes {
    type Target = [u8];

    fn deref(&self) -> (s: &[u8])
        ensures
            s@ == self@,
    {
        self.0.as_slice()
    }
}

impl PartialEq for Bytes {
    /// Constant-time equality.
    fn eq(&self, other: &Bytes) -> (same: bool) {
        constant_time_eq(self.0.as_slice(), other.0.as_slice())
    }
}

impl PartialEqSpecImpl for Bytes {
    open spec fn obeys_eq_spec() -> bool {
        true
    }

    open spec fn eq_spec(&self, other: &Bytes) -> bool {
        self@ == other@
    }
}

impl PartialEq<[u8]> for Bytes {
    /// Constant-time equality.
    fn eq(&self, other: &[u8]) -> (same: bool) {
        constant_time_eq(self.0.as_slice(), other)
    }
}

impl PartialEqSpecImpl<[u8]> for Bytes {
    open spec fn obeys_eq_spec() -> bool {
        true
    }

    open spec fn eq_spec(&self, other: &[u8]) -> bool {
        self@ == other@
    }
}

impl<const N: usize> PartialEq<[u8; N]> for Bytes {
    /// Constant-time equality.
    fn eq(&self, other: &[u8; N]) -> (same: bool) {
        constant_time_eq(self.0.as_slice(), other.as_slice())
    }
}

impl<const N: usize> PartialEqSpecImpl<[u8; N]> for Bytes {
    open spec fn obeys_eq_spec() -> bool {
        true
    }

    open spec fn eq_spec(&self, other: &[u8; N]) -> bool {
        self@ == other@
    }
}

impl Eq for Bytes {

}

impl Drop for Bytes {
    /// The bytes are wiped before the memory is given back.
    fn drop(&mut self)
        opens_invariants none
        no_unwind
    {
        wipe(&mut self.0);
    }
}

} // verus!
