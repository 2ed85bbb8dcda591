//! Guarded memory for long-lived secrets.
//!
//! The bytes live in memory that can be neither read nor written: a stray
//! pointer into the buffer faults the process instead of reading a secret.
//! A scoped access works on a copy. The protection is lifted only for the
//! time in which the copy is taken, or written back, and the copy is wiped when
//! the access ends, however it ends.

use vstd::prelude::*;
use vstd::slice::slice_to_vec;

use crate::seqs::zeros;
use crate::utils::bytes::asterisks;
use crate::utils::Bytes;

verus! {

/// `seckey::SecKey`, a value in guarded memory. Nothing is known of what is
/// inside but through `guarded_bytes`.
#[verifier::external_type_specification]
#[verifier::external_body]
#[verifier::reject_recursive_types(T)]
pub struct ExSecKey<T: ?Sized>(seckey::SecKey<T>);

/// The bytes that a guarded buffer holds.
pub uninterp spec fn guarded_bytes(key: seckey::SecKey<[u8]>) -> Seq<u8>;

/// `seckey::SecKey::from_bytes`: guarded memory is allocated, the bytes are
/// copied into it, all access to it is taken away, and the source is wiped.
/// Where no memory can be had, nothing happens and the source stays.
#[verifier::external_body]
fn guard(input: &mut Vec<u8>) -> (r: Option<seckey::SecKey<[u8]>>)
    ensures
        match r {
            Some(key) => guarded_bytes(key) == old(input)@ && final(input)@ == zeros(
                old(input)@.len(),
            ),
            None => final(input)@ == old(input)@,
        },
{
    seckey::SecKey::from_bytes(input.as_mut_slice())
}

/// `seckey::SecKey::read`, and a copy of what the guard shows: the memory is
/// made readable while the guard lives, which is for the time of the copy,
/// and closed again when the guard goes.
#[verifier::external_body]
fn read_guarded(key: &seckey::SecKey<[u8]>) -> (out: Vec<u8>)
    ensures
        out@ == guarded_bytes(*key),
{
    key.read().to_vec()
}

/// `seckey::SecKey::write`, and `data` copied over what the guard shows: the
/// memory is made writable while the guard lives, which is for the time of
/// the copy, and closed again when the guard goes.
#[verifier::external_body]
fn write_guarded(key: &mut seckey::SecKey<[u8]>, data: &[u8])
    requires
        data@.len() == guarded_bytes(*old(key)).len(),
    ensures
        guarded_bytes(*final(key)) == data@,
{
    key.write().copy_from_slice(data)
}

/// Secure bytes: a secret that is kept in guarded memory.
pub struct SecBytes {
    key: seckey::SecKey<[u8]>,
}

impl View for SecBytes {
    type V = Seq<u8>;

    closed spec fn view(&self) -> Seq<u8> {
        guarded_bytes(self.key)
    }
}

impl SecBytes {
    /// A guarded buffer that holds a copy of `input`; `None` where no guarded
    /// memory can be had. The copy that is made on the way is wiped.
    pub fn new(input: &[u8]) -> (r: Option<SecBytes>)
        ensures
            r matches Some(bytes) ==> bytes@ == input@,
    {
        let mut copy = Bytes(slice_to_vec(input));
        match guard(&mut copy.0) {
            Some(key) => Some(SecBytes { key }),
            None => None,
        }
    }

    /// The buffer as it may be shown: an asterisk for each byte.
    pub fn masked(&self) -> (s: String)
        ensures
            s@ == Seq::new(self@.len(), |i: int| '*'),
    {
        let copy = Bytes(read_guarded(&self.key));
        asterisks(copy.len())
    }

    /// Hands the bytes to `f` for reading and returns what `f` makes of them.
    /// `f` sees a copy, which is taken while the memory is open for reading
    /// and wiped when `f` is done.
    pub fn map_read<U, F: FnOnce(&[u8]) -> U>(&self, f: F) -> (out: U)
        requires
            forall|s: &[u8]| s@ == self@ ==> f.requires((s,)),
        ensures
            exists|s: &[u8]| s@ == self@ && f.ensures((s,), out),
    {
        let copy = Bytes(read_guarded(&self.key));
        f(copy.as_slice())
    }

    /// Hands the bytes to `f` for writing and returns what `f` returns. `f`
    /// works on a copy, which is written back while the memory is open for
    /// writing and wiped afterwards.
    pub fn map_write<U, F: FnOnce(&mut [u8]) -> U>(&mut self, f: F) -> (out: U)
        requires
            forall|s: &mut [u8]| s@ == old(self)@ ==> f.requires((s,)),
        ensures
            final(self)@.len() == old(self)@.len(),
            exists|s: &mut [u8]|
                s@ == old(self)@ && f.ensures((s,), out) && (final(s)@.len() == s@.len()
                    ==> final(self)@ == final(s)@),
    {
        let mut copy = Bytes(read_guarded(&self.key));
        let n = copy.len();
        let out = f(copy.0.as_mut_slice());
        if copy.len() == n {
            write_guarded(&mut self.key, copy.as_slice());
        }
        out
    }
}

} // verus!
