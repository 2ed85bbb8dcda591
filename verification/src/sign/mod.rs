//! Signatures.

use vstd::prelude::*;

use crate::utils::nonce::SystemRng;
use crate::{Error, Packing};

pub mod dilithium;

verus! {

/// A signature scheme.
pub trait Signature {
    /// The private key.
    type PrivateKey: Packing;

    /// The public key.
    type PublicKey: Packing;

    /// The signature.
    type Signature: Packing;

    /// Whether `signature` is one of `data` under the public key `pk`, all
    /// given by their encodings.
    spec fn verifies(pk: Seq<u8>, signature: Seq<u8>, data: Seq<u8>) -> bool;

    /// Whether `sk` and `pk` are a private key and the public key that belongs
    /// to it, as the scheme makes the two together.
    spec fn paired(sk: Seq<u8>, pk: Seq<u8>) -> bool;

    /// Whether `signature` is one that the scheme makes of `data` under the
    /// private key `sk`.
    spec fn signs(sk: Seq<u8>, data: Seq<u8>, signature: Seq<u8>) -> bool;

    /// A fresh key pair.
    fn keypair(r: &mut SystemRng) -> (keys: (Self::PrivateKey, Self::PublicKey))
        ensures
            Self::paired(keys.0.bytes(), keys.1.bytes()),
    ;

    /// A signature of `data` under `sk`.
    fn signature(r: &mut SystemRng, sk: &Self::PrivateKey, data: &[u8]) -> (sig: Self::Signature)
        ensures
            Self::signs(sk.bytes(), data@, sig.bytes()),
    ;

    /// Whether `sig` is a signature of `data` under `pk`.
    fn verify(pk: &Self::PublicKey, sig: &Self::Signature, data: &[u8]) -> (r: Result<(), Error>)
        ensures
            r is Ok <==> Self::verifies(pk.bytes(), sig.bytes(), data@),
            r matches Err(e) ==> e == Error::VerificationFailed,
    ;
}

/// A signature scheme that needs no randomness to sign.
pub trait DeterministicSignature: Signature {
    /// The signature of `data` under the private key `sk`, both given by their
    /// encodings.
    spec fn signed(sk: Seq<u8>, data: Seq<u8>) -> Seq<u8>;

    /// The scheme makes one signature of each message under each key.
    proof fn signs_what_is_signed(sk: Seq<u8>, data: Seq<u8>, signature: Seq<u8>)
        ensures
            Self::signs(sk, data, signature) <==> signature == Self::signed(sk, data),
    ;

    /// The signature of `data` under `sk`.
    fn sign(sk: &Self::PrivateKey, data: &[u8]) -> (sig: Self::Signature)
        ensures
            sig.bytes() == Self::signed(sk.bytes(), data@),
    ;
}

/// The scheme verifies what it signs: a signature made under a private key
/// verifies under the public key that belongs to it. That is what a signature
/// scheme is for; whether one does so is a matter of its mathematics, which no
/// contract here states.
pub open spec fn signatures_verify<S: Signature>() -> bool {
    forall|sk: Seq<u8>, pk: Seq<u8>, data: Seq<u8>, signature: Seq<u8>|
        S::paired(sk, pk) && #[trigger] S::signs(sk, data, signature) ==> #[trigger] S::verifies(
            pk,
            signature,
            data,
        )
}

/// Where the scheme verifies what it signs, the one signature that a
/// deterministic scheme makes of a message verifies under the public key that
/// belongs to the private key.
pub proof fn signed_verifies<S: DeterministicSignature>(sk: Seq<u8>, pk: Seq<u8>, data: Seq<u8>)
    requires
        signatures_verify::<S>(),
        S::paired(sk, pk),
    ensures
        S::verifies(pk, S::signed(sk, data), data),
{
    S::signs_what_is_signed(sk, data, S::signed(sk, data));
}

} // verus!
