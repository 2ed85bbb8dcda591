//! Key exchange.
//!
//! One side holds a key pair. The other side, given the public key, makes a
//! message and a shared secret; the first side derives the same secret from
//! the message and its private key.

use vstd::prelude::*;

use crate::utils::nonce::SystemRng;
use crate::{Error, Packing};

pub mod kyber;

verus! {

/// A key exchange.
pub trait KeyExchange {
    /// The private key.
    type PrivateKey: Packing;

    /// The public key.
    type PublicKey: Packing;

    /// The message that goes from the second side to the first.
    type Message: Packing;

    /// The length of the shared secret.
    const SHARED_LENGTH: usize;

    /// The secret that the holder of the private key `sk` derives from
    /// `message`, both given by their encodings.
    spec fn shared(sk: Seq<u8>, message: Seq<u8>) -> Seq<u8>;

    /// Whether `sk` and `pk` are a private key and the public key that belongs
    /// to it, as the exchange makes the two together.
    spec fn paired(sk: Seq<u8>, pk: Seq<u8>) -> bool;

    /// Whether `message` and `shared` are a message for the holder of the
    /// public key `pk` and the secret that goes with it, as the exchange makes
    /// the two together.
    spec fn exchanged(pk: Seq<u8>, message: Seq<u8>, shared: Seq<u8>) -> bool;

    /// A shared secret has the fixed length.
    proof fn shared_has_length(sk: Seq<u8>, message: Seq<u8>)
        ensures
            Self::shared(sk, message).len() == Self::SHARED_LENGTH,
    ;

    /// A fresh key pair.
    fn keypair(r: &mut SystemRng) -> (keys: (Self::PrivateKey, Self::PublicKey))
        ensures
            Self::paired(keys.0.bytes(), keys.1.bytes()),
    ;

    /// Makes the message for the holder of `pk` and writes the secret that is
    /// shared with them into `sharedkey`.
    fn exchange_to(r: &mut SystemRng, sharedkey: &mut [u8], pk: &Self::PublicKey) -> (m:
        Self::Message)
        requires
            old(sharedkey)@.len() == Self::SHARED_LENGTH,
        ensures
            final(sharedkey)@.len() == Self::SHARED_LENGTH,
            Self::exchanged(pk.bytes(), m.bytes(), final(sharedkey)@),
    ;

    /// Writes the secret that `m` shares with the holder of `sk` into
    /// `sharedkey`.
    fn exchange_from(sharedkey: &mut [u8], sk: &Self::PrivateKey, m: &Self::Message)
        requires
            old(sharedkey)@.len() == Self::SHARED_LENGTH,
        ensures
            final(sharedkey)@ == Self::shared(sk.bytes(), m.bytes()),
    ;
}

/// A key exchange that can tell a message that was not made for its key.
pub trait CheckedExchange: KeyExchange {
    /// Whether `message` verifies under the private key `sk`.
    spec fn accepted(sk: Seq<u8>, message: Seq<u8>) -> bool;

    /// Writes the secret that `m` shares with the holder of `sk` into
    /// `sharedkey`, where `m` verifies; where it does not, the call fails and
    /// says nothing of what `sharedkey` then holds.
    fn checked_exchange_from(
        sharedkey: &mut [u8],
        sk: &Self::PrivateKey,
        m: &Self::Message,
    ) -> (r: Result<(), Error>)
        requires
            old(sharedkey)@.len() == Self::SHARED_LENGTH,
        ensures
            final(sharedkey)@.len() == Self::SHARED_LENGTH,
            r is Ok <==> Self::accepted(sk.bytes(), m.bytes()),
            r is Ok ==> final(sharedkey)@ == Self::shared(sk.bytes(), m.bytes()),
            r matches Err(e) ==> e == Error::VerificationFailed,
    ;
}

/// The exchange agrees: whenever a message and a secret were made for a
/// public key, the holder of the private key that belongs to it derives that
/// secret from the message. That is what a key exchange is for; whether one
/// does so is a matter of its mathematics, which no contract here states.
pub open spec fn exchange_agrees<KEX: KeyExchange>() -> bool {
    forall|sk: Seq<u8>, pk: Seq<u8>, message: Seq<u8>, shared: Seq<u8>|
        KEX::paired(sk, pk) && #[trigger] KEX::exchanged(pk, message, shared) ==> #[trigger] KEX::shared(
            sk,
            message,
        ) == shared
}

} // verus!
