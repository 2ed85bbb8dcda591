//! The Kyber key encapsulation mechanism.

use vstd::prelude::*;
use vstd::std_specs::cmp::PartialEqSpecImpl;

use super::KeyExchange;
use crate::seqs::{array_of, copy_into};
use crate::utils::bytes::constant_time_eq;
use crate::utils::coins::Coins;
use crate::utils::nonce::GenNonce;
use crate::utils::nonce::SystemRng;
use crate::Packing;

verus! {

/// The length of a private key.
pub const SECRET_KEY_BYTES: usize = 2400;

/// The length of a public key.
pub const PUBLIC_KEY_BYTES: usize = 1088;

/// The length of a message.
pub const MESSAGE_BYTES: usize = 1184;

/// The length of the shared secret.
pub const SHARED_KEY_BYTES: usize = 32;

/// Where, in a private key, the public key that belongs to it stands.
pub const PUBLIC_KEY_AT: usize = 1248;

/// The number of random bytes that making a key pair draws.
pub const KEYPAIR_COINS: usize = 96;

/// The number of random bytes that making a message draws.
pub const EXCHANGE_COINS: usize = 32;

/// Byte `i` of the secret that Kyber derives from the private key `sk` and the
/// message `message`.
pub uninterp spec fn kyber_shared_byte(sk: Seq<u8>, message: Seq<u8>, i: int) -> u8;

/// The private key and the public key that Kyber makes where its generator
/// hands out the bytes `coins`.
pub uninterp spec fn kyber_keys(coins: Seq<u8>) -> (Seq<u8>, Seq<u8>);

/// The message and the shared secret that Kyber makes for the public key `pk`
/// where its generator hands out the bytes `coins`.
pub uninterp spec fn kyber_encapsulated(pk: Seq<u8>, coins: Seq<u8>) -> (Seq<u8>, Seq<u8>);

/// The public key that a private key holds.
pub open spec fn public_of(sk: Seq<u8>) -> Seq<u8> {
    sk.subrange(PUBLIC_KEY_AT as int, PUBLIC_KEY_AT + PUBLIC_KEY_BYTES)
}

/// Whether `sk` and `pk` are a key pair as Kyber makes them: from some 96
/// random bytes.
pub open spec fn is_keypair(sk: Seq<u8>, pk: Seq<u8>) -> bool {
    exists|coins: Seq<u8>|
        coins.len() == KEYPAIR_COINS && #[trigger] kyber_keys(coins) == (sk, pk)
}

/// Whether `message` and `shared` are a message for the holder of `pk` and the
/// secret that goes with it, as Kyber makes them: from some 32 random bytes.
pub open spec fn is_exchange(pk: Seq<u8>, message: Seq<u8>, shared: Seq<u8>) -> bool {
    exists|coins: Seq<u8>|
        coins.len() == EXCHANGE_COINS && #[trigger] kyber_encapsulated(pk, coins) == (
            message,
            shared,
        )
}

/// `kyber::kyber::keypair` with a generator that hands out the bytes it was
/// given: a private key of 2400 bytes and a public key of 1088. The crate asks
/// the generator three times for 32 bytes and for nothing else, so that the 96
/// bytes decide the pair. It copies the public key into the private key,
/// behind the 1248 bytes of the secret vector.
#[verifier::external_body]
fn kyber_keypair(rng: &mut Coins) -> (keys: ([u8; SECRET_KEY_BYTES], [u8; PUBLIC_KEY_BYTES]))
    requires
        old(rng).left().len() == KEYPAIR_COINS,
    ensures
        (keys.0@, keys.1@) == kyber_keys(old(rng).left()),
        public_of(keys.0@) == keys.1@,
{
    let mut sk = [0u8; SECRET_KEY_BYTES];
    let mut pk = [0u8; PUBLIC_KEY_BYTES];
    kyber::kyber::keypair(rng, &mut pk, &mut sk);
    (sk, pk)
}

/// `kyber::kyber::enc` with a generator that hands out the bytes it was given:
/// a message of 1184 bytes for the holder of `pk`, and the secret of 32 bytes
/// that goes with it. The crate asks the generator once for 32 bytes and for
/// nothing else, so that these and the public key decide the two.
#[verifier::external_body]
fn kyber_enc(rng: &mut Coins, pk: &[u8; PUBLIC_KEY_BYTES]) -> (r: (
    [u8; MESSAGE_BYTES],
    [u8; SHARED_KEY_BYTES],
))
    requires
        old(rng).left().len() == EXCHANGE_COINS,
    ensures
        (r.0@, r.1@) == kyber_encapsulated(pk@, old(rng).left()),
{
    let mut message = [0u8; MESSAGE_BYTES];
    let mut shared = [0u8; SHARED_KEY_BYTES];
    kyber::kyber::enc(rng, &mut message, &mut shared, pk);
    (message, shared)
}

/// `kyber::kyber::dec`: the secret of 32 bytes that the message and the
/// private key determine. A message that was not made for the key gives a
/// secret all the same, one that its sender does not know.
#[verifier::external_body]
fn kyber_dec(message: &[u8; MESSAGE_BYTES], sk: &[u8; SECRET_KEY_BYTES]) -> (shared: [u8;
    SHARED_KEY_BYTES])
    ensures
        forall|i: int|
            0 <= i < SHARED_KEY_BYTES ==> shared@[i] == kyber_shared_byte(sk@, message@, i),
{
    let mut shared = [0u8; SHARED_KEY_BYTES];
    kyber::kyber::dec(&mut shared, message, sk);
    shared
}

/// Kyber.
pub struct Kyber;

/// A private key.
pub struct PrivateKey([u8; SECRET_KEY_BYTES]);

/// A public key.
pub struct PublicKey([u8; PUBLIC_KEY_BYTES]);

/// The message that carries the shared secret to the holder of the private
/// key.
pub struct Message([u8; MESSAGE_BYTES]);

impl Packing for PrivateKey {
    const BYTES_LENGTH: usize = SECRET_KEY_BYTES;

    closed spec fn bytes(&self) -> Seq<u8> {
        self.0@
    }

    proof fn bytes_have_length(&self) {
    }

    fn read_bytes<T, F: FnOnce(&[u8]) -> T>(&self, f: F) -> (out: T) {
        f(self.0.as_slice())
    }

    fn from_bytes(buf: &[u8]) -> (r: Self) {
        let bytes: [u8; SECRET_KEY_BYTES] = array_of(buf);
        PrivateKey(bytes)
    }
}

impl Packing for PublicKey {
    const BYTES_LENGTH: usize = PUBLIC_KEY_BYTES;

    closed spec fn bytes(&self) -> Seq<u8> {
        self.0@
    }

    proof fn bytes_have_length(&self) {
    }

    fn read_bytes<T, F: FnOnce(&[u8]) -> T>(&self, f: F) -> (out: T) {
        f(self.0.as_slice())
    }

    fn from_bytes(buf: &[u8]) -> (r: Self) {
        let bytes: [u8; PUBLIC_KEY_BYTES] = array_of(buf);
        PublicKey(bytes)
    }
}

impl Packing for Message {
    const BYTES_LENGTH: usize = MESSAGE_BYTES;

    closed spec fn bytes(&self) -> Seq<u8> {
        self.0@
    }

    proof fn bytes_have_length(&self) {
    }

    fn read_bytes<T, F: FnOnce(&[u8]) -> T>(&self, f: F) -> (out: T) {
        f(self.0.as_slice())
    }

    fn from_bytes(buf: &[u8]) -> (r: Self) {
        let bytes: [u8; MESSAGE_BYTES] = array_of(buf);
        Message(bytes)
    }
}

impl PartialEq for PrivateKey {
    /// Constant-time equality of the encodings.
    fn eq(&self, rhs: &PrivateKey) -> (same: bool) {
        constant_time_eq(self.0.as_slice(), rhs.0.as_slice())
    }
}

impl PartialEqSpecImpl for PrivateKey {
    open spec fn obeys_eq_spec() -> bool {
        true
    }

    open spec fn eq_spec(&self, rhs: &PrivateKey) -> bool {
        self.bytes() == rhs.bytes()
    }
}

impl Eq for PrivateKey {

}

impl PartialEq for PublicKey {
    /// Constant-time equality of the encodings.
    fn eq(&self, rhs: &PublicKey) -> (same: bool) {
        constant_time_eq(self.0.as_slice(), rhs.0.as_slice())
    }
}

impl PartialEqSpecImpl for PublicKey {
    open spec fn obeys_eq_spec() -> bool {
        true
    }

    open spec fn eq_spec(&self, rhs: &PublicKey) -> bool {
        self.bytes() == rhs.bytes()
    }
}

impl Eq for PublicKey {

}

impl PartialEq for Message {
    /// Constant-time equality of the encodings.
    fn eq(&self, rhs: &Message) -> (same: bool) {
        constant_time_eq(self.0.as_slice(), rhs.0.as_slice())
    }
}

impl PartialEqSpecImpl for Message {
    open spec fn obeys_eq_spec() -> bool {
        true
    }

    open spec fn eq_spec(&self, rhs: &Message) -> bool {
        self.bytes() == rhs.bytes()
    }
}

impl Eq for Message {

}

impl Kyber {
    /// The key pair that Kyber makes from the random bytes `coins`.
    pub fn keypair_from(coins: Coins) -> (keys: (PrivateKey, PublicKey))
        requires
            coins.left().len() == KEYPAIR_COINS,
        ensures
            (keys.0.bytes(), keys.1.bytes()) == kyber_keys(coins.left()),
            public_of(keys.0.bytes()) == keys.1.bytes(),
    {
        let mut coins = coins;
        let (sk, pk) = kyber_keypair(&mut coins);
        (PrivateKey(sk), PublicKey(pk))
    }

    /// Makes the message for the holder of `pk` from the random bytes `coins`
    /// and writes the secret that goes with it into `sharedkey`.
    pub fn exchange_with(coins: Coins, sharedkey: &mut [u8], pk: &PublicKey) -> (m: Message)
        requires
            coins.left().len() == EXCHANGE_COINS,
            old(sharedkey)@.len() == SHARED_KEY_BYTES,
        ensures
            final(sharedkey)@.len() == SHARED_KEY_BYTES,
            (m.bytes(), final(sharedkey)@) == kyber_encapsulated(pk.bytes(), coins.left()),
    {
        let mut coins = coins;
        let (message, shared) = kyber_enc(&mut coins, &pk.0);
        copy_into(sharedkey, shared.as_slice());
        Message(message)
    }

    /// The lengths of the shared secret and of the encodings of the private
    /// key, the public key and the message.
    pub proof fn lengths()
        ensures
            Self::SHARED_LENGTH == SHARED_KEY_BYTES,
            PrivateKey::BYTES_LENGTH == SECRET_KEY_BYTES,
            PublicKey::BYTES_LENGTH == PUBLIC_KEY_BYTES,
            Message::BYTES_LENGTH == MESSAGE_BYTES,
    {
    }
}

impl KeyExchange for Kyber {
    type PrivateKey = PrivateKey;

    type PublicKey = PublicKey;

    type Message = Message;

    const SHARED_LENGTH: usize = SHARED_KEY_BYTES;

    open spec fn shared(sk: Seq<u8>, message: Seq<u8>) -> Seq<u8> {
        Seq::new(SHARED_KEY_BYTES as nat, |i: int| kyber_shared_byte(sk, message, i))
    }

    /// The two are what Kyber makes from some 96 random bytes, and the
    /// private key holds the public key.
    open spec fn paired(sk: Seq<u8>, pk: Seq<u8>) -> bool {
        is_keypair(sk, pk) && public_of(sk) == pk
    }

    /// The two are what Kyber makes for `pk` from some 32 random bytes.
    open spec fn exchanged(pk: Seq<u8>, message: Seq<u8>, shared: Seq<u8>) -> bool {
        is_exchange(pk, message, shared)
    }

    proof fn shared_has_length(sk: Seq<u8>, message: Seq<u8>) {
    }

    /// The pair is one that Kyber makes from 96 bytes of `r`, and the private
    /// key holds the public key that comes with it.
    fn keypair(r: &mut SystemRng) -> (keys: (Self::PrivateKey, Self::PublicKey))
        ensures
            is_keypair(keys.0.bytes(), keys.1.bytes()),
            public_of(keys.0.bytes()) == keys.1.bytes(),
    {
        let coins = Coins::new(r.gen(KEYPAIR_COINS));
        Self::keypair_from(coins)
    }

    /// The message that is returned and the secret that is written are the
    /// two that Kyber makes together for `pk` from 32 bytes of `r`.
    fn exchange_to(r: &mut SystemRng, sharedkey: &mut [u8], pk: &Self::PublicKey) -> (m:
        Self::Message)
        ensures
            is_exchange(pk.bytes(), m.bytes(), final(sharedkey)@),
    {
        let coins = Coins::new(r.gen(EXCHANGE_COINS));
        Self::exchange_with(coins, sharedkey, pk)
    }

    fn exchange_from(sharedkey: &mut [u8], sk: &Self::PrivateKey, m: &Self::Message) {
        let shared = kyber_dec(&m.0, &sk.0);
        assert(shared@ =~= Self::shared(sk.bytes(), m.bytes()));
        copy_into(sharedkey, shared.as_slice());
    }
}

} // verus!
