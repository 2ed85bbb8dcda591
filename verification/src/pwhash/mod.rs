//! Password hashing.

use vstd::prelude::*;

use crate::seqs::zeros;
use crate::utils::bytes::constant_time_eq;
use crate::utils::nonce::GenNonce;
use crate::utils::Bytes;

pub mod argon2;

pub use self::argon2::Argon2i;

verus! {

/// A hashed password.
pub type Key = Bytes;

/// The length of the salt that `pwhash` draws.
pub const SALT_LENGTH: usize = 8;

/// Key derivation error.
#[derive(Clone, Debug)]
pub enum KeyDerivationFail {
    /// Parameter error, in the words of the function that refused.
    ParameterError(String),
    /// Output length too short.
    OutLenTooShort,
    /// Output length too long.
    OutLenTooLong,
    /// Salt too short.
    SaltTooShort,
    /// Salt too long.
    SaltTooLong,
}

/// The kinds of failure, without their words.
pub enum FailKind {
    /// The parameters were refused.
    Parameter,
    /// Output length too short.
    OutLenTooShort,
    /// Output length too long.
    OutLenTooLong,
    /// Salt too short.
    SaltTooShort,
    /// Salt too long.
    SaltTooLong,
}

impl KeyDerivationFail {
    /// The kind of the failure.
    pub open spec fn kind(&self) -> FailKind {
        match self {
            KeyDerivationFail::ParameterError(_) => FailKind::Parameter,
            KeyDerivationFail::OutLenTooShort => FailKind::OutLenTooShort,
            KeyDerivationFail::OutLenTooLong => FailKind::OutLenTooLong,
            KeyDerivationFail::SaltTooShort => FailKind::SaltTooShort,
            KeyDerivationFail::SaltTooLong => FailKind::SaltTooLong,
        }
    }

    /// The failure in words.
    pub fn description(&self) -> (s: String)
        ensures
            s@ == (match *self {
                KeyDerivationFail::ParameterError(text) => text@,
                KeyDerivationFail::OutLenTooShort => "Output length too short."@,
                KeyDerivationFail::OutLenTooLong => "Output length too long."@,
                KeyDerivationFail::SaltTooShort => "Salt too short."@,
                KeyDerivationFail::SaltTooLong => "Salt too long."@,
            }),
    {
        match self {
            KeyDerivationFail::ParameterError(text) => text.clone(),
            KeyDerivationFail::OutLenTooShort => "Output length too short.".to_owned(),
            KeyDerivationFail::OutLenTooLong => "Output length too long.".to_owned(),
            KeyDerivationFail::SaltTooShort => "Salt too short.".to_owned(),
            KeyDerivationFail::SaltTooLong => "Salt too long.".to_owned(),
        }
    }
}

/// What a derivation gives, as sequences: the key, or the kind of failure.
pub open spec fn derived_of(r: Result<Key, KeyDerivationFail>) -> Result<Seq<u8>, FailKind> {
    match r {
        Ok(key) => Ok(key@),
        Err(e) => Err(e.kind()),
    }
}

/// A function that derives keys from passwords.
pub trait KeyDerive: Sized {
    /// Whether the function can be run on a password of `password_len` bytes
    /// as it is set now.
    spec fn ready(&self, password_len: nat) -> bool;

    /// What deriving from `password` and `salt` gives: the key, or the kind of
    /// failure.
    spec fn derived(&self, password: Seq<u8>, salt: Seq<u8>) -> Result<Seq<u8>, FailKind>;

    /// Derives a key from `password` under a salt drawn from `rng`.
    fn pwhash<G: GenNonce>(&self, rng: &mut G, password: &[u8]) -> (r: Result<
        Key,
        KeyDerivationFail,
    >)
        requires
            self.ready(password@.len()),
            old(rng).can_fill(SALT_LENGTH as nat),
        ensures
            exists|salt: Seq<u8>|
                {
                    &&& salt.len() == SALT_LENGTH
                    &&& G::fills(*old(rng), *final(rng), zeros(SALT_LENGTH as nat), salt)
                    &&& derived_of(r) == #[trigger] self.derived(password@, salt)
                },
    {
        let salt = rng.gen(SALT_LENGTH);
        let r = self.derive(password, salt.as_slice());
        assert(derived_of(r) == self.derived(password@, salt@));
        r
    }

    /// Derives a key from `password` and `salt`.
    fn derive(&self, password: &[u8], salt: &[u8]) -> (r: Result<Key, KeyDerivationFail>)
        requires
            self.ready(password@.len()),
        ensures
            derived_of(r) == self.derived(password@, salt@),
    ;
}

/// Checking a password against a derived key.
pub trait KeyVerify: KeyDerive {
    /// Whether `hash` is the key that `password` and `salt` derive. The
    /// comparison takes the same time wherever the two differ.
    fn verify(&self, password: &[u8], salt: &[u8], hash: &[u8]) -> (r: Result<
        bool,
        KeyDerivationFail,
    >)
        requires
            self.ready(password@.len()),
        ensures
            match self.derived(password@, salt@) {
                Ok(key) => r == Ok::<bool, KeyDerivationFail>(key == hash@),
                Err(kind) => r matches Err(e) && e.kind() == kind,
            },
    {
        match self.derive(password, salt) {
            Ok(key) => Ok(constant_time_eq(key.as_slice(), hash)),
            Err(e) => Err(e),
        }
    }
}

impl<T: KeyDerive> KeyVerify for T {

}

} // verus!
