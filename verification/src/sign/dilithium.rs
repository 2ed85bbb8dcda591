//! The Dilithium signature scheme.

use vstd::prelude::*;
use vstd::std_specs::cmp::PartialEqSpecImpl;

use super::{DeterministicSignature, Signature};
use crate::seqs::array_of;
use crate::utils::bytes::constant_time_eq;
use crate::utils::coins::Coins;
use crate::utils::nonce::GenNonce;
use crate::utils::nonce::SystemRng;
use crate::{Error, Packing};

verus! {

/// The length of a private key.
pub const SECRET_KEY_BYTES: usize = 3504;

/// The length of a public key.
pub const PUBLIC_KEY_BYTES: usize = 1472;

/// The length of a signature.
pub const SIGNATURE_BYTES: usize = 2701;

/// The length of the seed of the matrix.
pub const SEED_BYTES: usize = 32;

/// The number of random bytes that making a key pair draws.
pub const KEYPAIR_COINS: usize = 32;

/// The most hints that a signature carries.
pub const HINTS: usize = 96;

/// Where, in a signature, the counts of its hints stand: one byte for each of
/// the `HINT_COUNTS` rows, each the number of hints up to and with that row.
pub const HINT_COUNTS_AT: usize = 2656;

/// The number of counts of hints in a signature.
pub const HINT_COUNTS: usize = 5;

/// Whether the counts of hints in a signature are ones that a signature can
/// have: none above the most that it carries.
pub open spec fn hint_counts_fit(signature: Seq<u8>) -> bool {
    forall|i: int|
        HINT_COUNTS_AT <= i < HINT_COUNTS_AT + HINT_COUNTS ==> #[trigger] signature[i] <= HINTS
}

/// Byte `i` of the signature that Dilithium makes of `data` under the private
/// key `sk`.
pub uninterp spec fn dilithium_signature_byte(data: Seq<u8>, sk: Seq<u8>, i: int) -> u8;

/// Whether Dilithium takes `signature` for one of `data` under the public key
/// `pk`.
pub uninterp spec fn dilithium_verifies(data: Seq<u8>, signature: Seq<u8>, pk: Seq<u8>) -> bool;

/// The private key and the public key that Dilithium makes where its
/// generator hands out the bytes `coins`.
pub uninterp spec fn dilithium_keys(coins: Seq<u8>) -> (Seq<u8>, Seq<u8>);

/// The seed of the matrix, with which both keys of a pair begin.
pub open spec fn seed_of(key: Seq<u8>) -> Seq<u8> {
    key.subrange(0, SEED_BYTES as int)
}

/// Whether `sk` and `pk` are a key pair as Dilithium makes them: from some 32
/// random bytes.
pub open spec fn is_keypair(sk: Seq<u8>, pk: Seq<u8>) -> bool {
    exists|coins: Seq<u8>|
        coins.len() == KEYPAIR_COINS && #[trigger] dilithium_keys(coins) == (sk, pk)
}

/// `dilithium::sign::keypair` with a generator that hands out the bytes it was
/// given: a private key of 3504 bytes and a public key of 1472. The crate asks
/// the generator once for 32 bytes and for nothing else, so that these decide
/// the pair. It writes the seed of the matrix at the front of both keys. (It
/// expands its matrix as `verify` does.)
#[verifier::external_body]
fn dilithium_keypair(rng: &mut Coins) -> (keys: ([u8; SECRET_KEY_BYTES], [u8; PUBLIC_KEY_BYTES]))
    requires
        old(rng).left().len() == KEYPAIR_COINS,
    ensures
        (keys.0@, keys.1@) == dilithium_keys(old(rng).left()),
        seed_of(keys.0@) == seed_of(keys.1@),
{
    let mut sk = [0u8; SECRET_KEY_BYTES];
    let mut pk = [0u8; PUBLIC_KEY_BYTES];
    dilithium::sign::keypair(rng, &mut pk, &mut sk);
    (sk, pk)
}

/// `dilithium::sign::sign`: the signature of 2701 bytes, which the message
/// and the private key determine. (The crate tries candidates until one
/// passes its checks, and expands its matrix as `verify` does.)
#[verifier::external_body]
fn dilithium_sign(data: &[u8], sk: &[u8; SECRET_KEY_BYTES]) -> (sig: [u8; SIGNATURE_BYTES])
    ensures
        forall|i: int|
            0 <= i < SIGNATURE_BYTES ==> sig@[i] == dilithium_signature_byte(data@, sk@, i),
{
    let mut sig = [0u8; SIGNATURE_BYTES];
    dilithium::sign::sign(&mut sig, data, sk);
    sig
}

/// `dilithium::sign::verify`: whether the signature is one of the message
/// under the public key, which the three determine. The crate reads as many
/// hints as the signature's counts say, so the counts must fit. (The crate
/// expands a matrix from the key's seed into a buffer of fixed size, and gives
/// up on a seed that would need more; none is known.)
#[verifier::external_body]
fn dilithium_verify(data: &[u8], sig: &[u8; SIGNATURE_BYTES], pk: &[u8; PUBLIC_KEY_BYTES]) -> (ok:
    bool)
    requires
        hint_counts_fit(sig@),
    ensures
        ok == dilithium_verifies(data@, sig@, pk@),
{
    dilithium::sign::verify(data, sig, pk)
}

/// Whether the counts of hints in `sig` fit.
fn check_hint_counts(sig: &[u8; SIGNATURE_BYTES]) -> (fit: bool)
    ensures
        fit == hint_counts_fit(sig@),
{
    let mut i: usize = 0;
    while i < HINT_COUNTS
        invariant
            i <= HINT_COUNTS,
            forall|j: int| HINT_COUNTS_AT <= j < HINT_COUNTS_AT + i ==> #[trigger] sig@[j] <= HINTS,
        decreases HINT_COUNTS - i,
    {
        if sig[HINT_COUNTS_AT + i] as usize > HINTS {
            return false;
        }
        i += 1;
    }
    true
}

/// Dilithium.
pub struct Dilithium;

/// A private key.
pub struct PrivateKey([u8; SECRET_KEY_BYTES]);

/// A public key.
pub struct PublicKey([u8; PUBLIC_KEY_BYTES]);

/// A signature.
pub struct SignatureData([u8; SIGNATURE_BYTES]);

impl Packing for PrivateKey {
    const BYTES_LENGTH: usize = SECRET_KEY_BYTES;

    closed spec fn bytes(&self) -> Seq<u8> {
        self.0@
    }

    proof fn bytes_have_length(&self) {
    }

    fn read_bytes<T, F: FnOnce(&[u8]) -> T>(&self, f: F) -> (out: T) {
        f(self.0.as_slice())
    }

    fn from_bytes(buf: &[u8]) -> (r: Self) {
        let bytes: [u8; SECRET_KEY_BYTES] = array_of(buf);
        PrivateKey(bytes)
    }
}

impl Packing for PublicKey {
    const BYTES_LENGTH: usize = PUBLIC_KEY_BYTES;

    closed spec fn bytes(&self) -> Seq<u8> {
        self.0@
    }

    proof fn bytes_have_length(&self) {
    }

    fn read_bytes<T, F: FnOnce(&[u8]) -> T>(&self, f: F) -> (out: T) {
        f(self.0.as_slice())
    }

    fn from_bytes(buf: &[u8]) -> (r: Self) {
        let bytes: [u8; PUBLIC_KEY_BYTES] = array_of(buf);
        PublicKey(bytes)
    }
}

impl Packing for SignatureData {
    const BYTES_LENGTH: usize = SIGNATURE_BYTES;

    closed spec fn bytes(&self) -> Seq<u8> {
        self.0@
    }

    proof fn bytes_have_length(&self) {
    }

    fn read_bytes<T, F: FnOnce(&[u8]) -> T>(&self, f: F) -> (out: T) {
        f(self.0.as_slice())
    }

    fn from_bytes(buf: &[u8]) -> (r: Self) {
        let bytes: [u8; SIGNATURE_BYTES] = array_of(buf);
        SignatureData(bytes)
    }
}

impl PartialEq for PrivateKey {
    /// Constant-time equality of the encodings.
    fn eq(&self, rhs: &PrivateKey) -> (same: bool) {
        constant_time_eq(self.0.as_slice(), rhs.0.as_slice())
    }
}

impl PartialEqSpecImpl for PrivateKey {
    open spec fn obeys_eq_spec() -> bool {
        true
    }

    open spec fn eq_spec(&self, rhs: &PrivateKey) -> bool {
        self.bytes() == rhs.bytes()
    }
}

impl Eq for PrivateKey {

}

impl PartialEq for PublicKey {
    /// Constant-time equality of the encodings.
    fn eq(&self, rhs: &PublicKey) -> (same: bool) {
        constant_time_eq(self.0.as_slice(), rhs.0.as_slice())
    }
}

impl PartialEqSpecImpl for PublicKey {
    open spec fn obeys_eq_spec() -> bool {
        true
    }

    open spec fn eq_spec(&self, rhs: &PublicKey) -> bool {
        self.bytes() == rhs.bytes()
    }
}

impl Eq for PublicKey {

}

impl PartialEq for SignatureData {
    /// Constant-time equality of the encodings.
    fn eq(&self, rhs: &SignatureData) -> (same: bool) {
        constant_time_eq(self.0.as_slice(), rhs.0.as_slice())
    }
}

impl PartialEqSpecImpl for SignatureData {
    open spec fn obeys_eq_spec() -> bool {
        true
    }

    open spec fn eq_spec(&self, rhs: &SignatureData) -> bool {
        self.bytes() == rhs.bytes()
    }
}

impl Eq for SignatureData {

}

impl Dilithium {
    /// The key pair that Dilithium makes from the random bytes `coins`.
    pub fn keypair_from(coins: Coins) -> (keys: (PrivateKey, PublicKey))
        requires
            coins.left().len() == KEYPAIR_COINS,
        ensures
            (keys.0.bytes(), keys.1.bytes()) == dilithium_keys(coins.left()),
            seed_of(keys.0.bytes()) == seed_of(keys.1.bytes()),
    {
        let mut coins = coins;
        let (sk, pk) = dilithium_keypair(&mut coins);
        (PrivateKey(sk), PublicKey(pk))
    }

    /// The lengths of the encodings of the private key, the public key and
    /// the signature.
    pub proof fn lengths()
        ensures
            PrivateKey::BYTES_LENGTH == SECRET_KEY_BYTES,
            PublicKey::BYTES_LENGTH == PUBLIC_KEY_BYTES,
            SignatureData::BYTES_LENGTH == SIGNATURE_BYTES,
    {
    }
}

impl Signature for Dilithium {
    type PrivateKey = PrivateKey;

    type PublicKey = PublicKey;

    type Signature = SignatureData;

    /// A signature whose counts of hints do not fit is none; of the others
    /// Dilithium decides.
    open spec fn verifies(pk: Seq<u8>, signature: Seq<u8>, data: Seq<u8>) -> bool {
        hint_counts_fit(signature) && dilithium_verifies(data, signature, pk)
    }

    /// The two are what Dilithium makes from some 32 random bytes, and both
    /// begin with the same seed.
    open spec fn paired(sk: Seq<u8>, pk: Seq<u8>) -> bool {
        is_keypair(sk, pk) && seed_of(sk) == seed_of(pk)
    }

    /// Dilithium makes one signature of each message under each key.
    open spec fn signs(sk: Seq<u8>, data: Seq<u8>, signature: Seq<u8>) -> bool {
        signature == Seq::new(SIGNATURE_BYTES as nat, |i: int| dilithium_signature_byte(data, sk, i))
    }

    /// The pair is made from 32 bytes of `r`.
    fn keypair(r: &mut SystemRng) -> (keys: (Self::PrivateKey, Self::PublicKey)) {
        let coins = Coins::new(r.gen(KEYPAIR_COINS));
        Self::keypair_from(coins)
    }

    /// Dilithium signs without randomness; the generator is not used.
    fn signature(r: &mut SystemRng, sk: &Self::PrivateKey, data: &[u8]) -> (sig: Self::Signature) {
        <Dilithium as DeterministicSignature>::sign(sk, data)
    }

    fn verify(pk: &Self::PublicKey, sig: &Self::Signature, data: &[u8]) -> (r: Result<(), Error>) {
        if check_hint_counts(&sig.0) && dilithium_verify(data, &sig.0, &pk.0) {
            Ok(())
        } else {
            Err(Error::VerificationFailed)
        }
    }
}

impl DeterministicSignature for Dilithium {
    open spec fn signed(sk: Seq<u8>, data: Seq<u8>) -> Seq<u8> {
        Seq::new(SIGNATURE_BYTES as nat, |i: int| dilithium_signature_byte(data, sk, i))
    }

    proof fn signs_what_is_signed(sk: Seq<u8>, data: Seq<u8>, signature: Seq<u8>) {
    }

    fn sign(sk: &Self::PrivateKey, data: &[u8]) -> (sig: Self::Signature) {
        let sig = dilithium_sign(data, &sk.0);
        assert(sig@ =~= Self::signed(sk.bytes(), data@));
        SignatureData(sig)
    }
}

} // verus!
