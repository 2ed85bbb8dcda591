//! Argon2i.

use vstd::prelude::*;

use super::{FailKind, Key, KeyDerivationFail, KeyDerive};
use crate::utils::Bytes;

verus! {

/// Interactive opslimit.
pub const OPSLIMIT_INTERACTIVE: u32 = 4;

/// Interactive memlimit.
pub const MEMLIMIT_INTERACTIVE: u32 = 33554432;

/// Moderate opslimit.
pub const OPSLIMIT_MODERATE: u32 = 6;

/// Moderate memlimit.
pub const MEMLIMIT_MODERATE: u32 = 134217728;

/// Sensitive opslimit.
pub const OPSLIMIT_SENSITIVE: u32 = 8;

/// Sensitive memlimit.
pub const MEMLIMIT_SENSITIVE: u32 = 536870912;

/// The longest output, salt, password and associated data that the function
/// takes.
pub const MAX_LENGTH: usize = 0xffff_ffff;

/// `argon2rs::ParamErr`, the ways in which Argon2 refuses cost parameters: too
/// few passes, too few or too many lanes, too little memory.
#[verifier::external_type_specification]
pub struct ExParamErr(argon2rs::ParamErr);

/// Byte `i` of the Argon2i hash of `outlen` bytes, for the cost parameters,
/// the password, the salt, the key and the associated data.
pub uninterp spec fn argon2i_byte(
    passes: u32,
    lanes: u32,
    kib: u32,
    outlen: nat,
    password: Seq<u8>,
    salt: Seq<u8>,
    key: Seq<u8>,
    aad: Seq<u8>,
    i: int,
) -> u8;

/// The cost parameters that Argon2 takes: at least one pass, between one lane
/// and 2^24 - 1, and eight KiB of memory for each lane.
pub open spec fn params_accepted(passes: u32, lanes: u32, kib: u32) -> bool {
    passes >= 1 && 1 <= lanes <= 0x00ff_ffff && kib >= 8 * lanes
}

/// `argon2rs::Argon2::new(passes, lanes, kib, Variant::Argon2i)` and then
/// `hash` on it. `new` refuses cost parameters outside the ranges above, and
/// nothing else; `hash` fills a buffer of the length asked for with bytes that
/// all the inputs together determine.
#[verifier::external_body]
fn argon2i_hash(
    passes: u32,
    lanes: u32,
    kib: u32,
    outlen: usize,
    password: &[u8],
    salt: &[u8],
    key: &[u8],
    aad: &[u8],
) -> (r: Result<Vec<u8>, argon2rs::ParamErr>)
    requires
        4 <= outlen <= MAX_LENGTH,
        password@.len() <= MAX_LENGTH,
        8 <= salt@.len() <= MAX_LENGTH,
        key@.len() <= 32,
        aad@.len() <= MAX_LENGTH,
    ensures
        r is Ok <==> params_accepted(passes, lanes, kib),
        r matches Ok(out) ==> out@.len() == outlen && forall|i: int|
            0 <= i < outlen ==> out@[i] == argon2i_byte(
                passes,
                lanes,
                kib,
                outlen as nat,
                password@,
                salt@,
                key@,
                aad@,
                i,
            ),
{
    let hasher = argon2rs::Argon2::new(passes, lanes, kib, argon2rs::Variant::Argon2i)?;
    let mut out = vec![0u8; outlen];
    hasher.hash(&mut out, password, salt, key, aad);
    Ok(out)
}

/// `std::error::Error::description` of the error with which Argon2 refuses
/// cost parameters: the crate's words for it.
#[verifier::external_body]
fn param_error_text(err: argon2rs::ParamErr) -> (text: String) {
    std::error::Error::description(&err).to_string()
}

/// Argon2i, with the output length, key, associated data and costs that were
/// set on it.
pub struct Argon2i {
    key: Bytes,
    aad: Bytes,
    outlen: usize,
    passes: u32,
    lanes: u32,
    kib: u32,
}

impl Argon2i {
    /// The output length.
    pub closed spec fn size(&self) -> nat {
        self.outlen as nat
    }

    /// The key.
    pub closed spec fn key(&self) -> Seq<u8> {
        self.key@
    }

    /// The associated data.
    pub closed spec fn aad(&self) -> Seq<u8> {
        self.aad@
    }

    /// The number of passes.
    pub closed spec fn passes(&self) -> u32 {
        self.passes
    }

    /// The number of lanes.
    pub closed spec fn lanes(&self) -> u32 {
        self.lanes
    }

    /// The memory, in KiB.
    pub closed spec fn kib(&self) -> u32 {
        self.kib
    }

    /// Argon2i with no key and no associated data, for keys of 16 bytes, at
    /// the interactive costs, on one lane.
    pub fn default() -> (f: Argon2i)
        ensures
            f.size() == 16,
            f.key() == Seq::<u8>::empty(),
            f.aad() == Seq::<u8>::empty(),
            f.passes() == OPSLIMIT_INTERACTIVE,
            f.lanes() == 1,
            f.kib() == MEMLIMIT_INTERACTIVE / 1024,
    {
        Argon2i {
            key: Bytes::new(&[]),
            aad: Bytes::new(&[]),
            outlen: 16,
            passes: OPSLIMIT_INTERACTIVE,
            lanes: 1,
            kib: MEMLIMIT_INTERACTIVE / 1024,
        }
    }

    /// Sets the output length.
    pub fn with_size(&mut self, len: usize) -> (r: &mut Self)
        ensures
            r.size() == len,
            r.key() == old(self).key(),
            r.aad() == old(self).aad(),
            r.passes() == old(self).passes(),
            r.lanes() == old(self).lanes(),
            r.kib() == old(self).kib(),
            *final(self) == *final(r),
    {
        self.outlen = len;
        self
    }

    /// Sets the key.
    pub fn with_key(&mut self, key: &[u8]) -> (r: &mut Self)
        ensures
            r.size() == old(self).size(),
            r.key() == key@,
            r.aad() == old(self).aad(),
            r.passes() == old(self).passes(),
            r.lanes() == old(self).lanes(),
            r.kib() == old(self).kib(),
            *final(self) == *final(r),
    {
        self.key = Bytes::new(key);
        self
    }

    /// Sets the associated data.
    pub fn with_aad(&mut self, aad: &[u8]) -> (r: &mut Self)
        ensures
            r.size() == old(self).size(),
            r.key() == old(self).key(),
            r.aad() == aad@,
            r.passes() == old(self).passes(),
            r.lanes() == old(self).lanes(),
            r.kib() == old(self).kib(),
            *final(self) == *final(r),
    {
        self.aad = Bytes::new(aad);
        self
    }

    /// Sets the number of passes.
    pub fn with_opslimit(&mut self, opslimit: u32) -> (r: &mut Self)
        ensures
            r.size() == old(self).size(),
            r.key() == old(self).key(),
            r.aad() == old(self).aad(),
            r.passes() == opslimit,
            r.lanes() == old(self).lanes(),
            r.kib() == old(self).kib(),
            *final(self) == *final(r),
    {
        self.passes = opslimit;
        self
    }

    /// Sets the memory, in bytes.
    pub fn with_memlimit(&mut self, memlimit: u32) -> (r: &mut Self)
        ensures
            r.size() == old(self).size(),
            r.key() == old(self).key(),
            r.aad() == old(self).aad(),
            r.passes() == old(self).passes(),
            r.lanes() == old(self).lanes(),
            r.kib() == memlimit / 1024,
            *final(self) == *final(r),
    {
        self.kib = memlimit / 1024;
        self
    }
}

impl KeyDerive for Argon2i {
    /// The key may have up to 32 bytes; the password and the associated data
    /// must not be longer than the function takes.
    open spec fn ready(&self, password_len: nat) -> bool {
        self.key().len() <= 32 && self.aad().len() <= MAX_LENGTH && password_len <= MAX_LENGTH
    }

    open spec fn derived(&self, password: Seq<u8>, salt: Seq<u8>) -> Result<Seq<u8>, FailKind> {
        if salt.len() < 8 {
            Err(FailKind::SaltTooShort)
        } else if salt.len() > MAX_LENGTH {
            Err(FailKind::SaltTooLong)
        } else if self.size() < 4 {
            Err(FailKind::OutLenTooShort)
        } else if self.size() > MAX_LENGTH {
            Err(FailKind::OutLenTooLong)
        } else if !params_accepted(self.passes(), self.lanes(), self.kib()) {
            Err(FailKind::Parameter)
        } else {
            Ok(
                Seq::new(
                    self.size(),
                    |i: int|
                        argon2i_byte(
                            self.passes(),
                            self.lanes(),
                            self.kib(),
                            self.size(),
                            password,
                            salt,
                            self.key(),
                            self.aad(),
                            i,
                        ),
                ),
            )
        }
    }

    fn derive(&self, password: &[u8], salt: &[u8]) -> (r: Result<Key, KeyDerivationFail>) {
        if salt.len() < 8 {
            return Err(KeyDerivationFail::SaltTooShort);
        }
        if salt.len() > MAX_LENGTH {
            return Err(KeyDerivationFail::SaltTooLong);
        }
        if self.outlen < 4 {
            return Err(KeyDerivationFail::OutLenTooShort);
        }
        if self.outlen > MAX_LENGTH {
            return Err(KeyDerivationFail::OutLenTooLong);
        }
        match argon2i_hash(
            self.passes,
            self.lanes,
            self.kib,
            self.outlen,
            password,
            salt,
            self.key.as_slice(),
            self.aad.as_slice(),
        ) {
            Ok(out) => {
                assert(self.derived(password@, salt@) matches Ok(key) && key =~= out@);
                Ok(Bytes(out))
            },
            Err(err) => Err(KeyDerivationFail::ParameterError(param_error_text(err))),
        }
    }
}

} // verus!
