//! The shape that the two nonce-misuse-resistant constructions share.
//!
//! The nonce under which the plaintext is encrypted is not the caller's: it is
//! made from the associated data and the plaintext by a keyed function, so that
//! sealing is a function of key, nonce, associated data and plaintext alone.
//! The tag is that synthetic nonce, masked with what the keyed function makes
//! of the ciphertext.

use vstd::prelude::*;

use crate::seqs::{lemma_xor_zip_undo, xor_zip};

verus! {

/// The ciphertext of `input` under the synthetic nonce, followed by the masked
/// synthetic nonce. `prf` is the keyed function, `cipher` the keystream cipher
/// as a function of nonce and data.
pub open spec fn riv_sealed(
    prf: spec_fn(Seq<u8>) -> Seq<u8>,
    cipher: spec_fn(Seq<u8>, Seq<u8>) -> Seq<u8>,
    aad: Seq<u8>,
    input: Seq<u8>,
) -> Seq<u8> {
    let siv = prf(aad + input);
    let ciphertext = cipher(siv, input);
    ciphertext + xor_zip(siv, prf(ciphertext))
}

/// The plaintext of `input`: the tag is unmasked into a candidate for the
/// synthetic nonce, the ciphertext decrypted under it, and the plaintext
/// given only where it and the associated data lead to that same candidate.
pub open spec fn riv_opened(
    prf: spec_fn(Seq<u8>) -> Seq<u8>,
    cipher: spec_fn(Seq<u8>, Seq<u8>) -> Seq<u8>,
    tag_length: nat,
    aad: Seq<u8>,
    input: Seq<u8>,
) -> Option<Seq<u8>> {
    if input.len() < tag_length {
        None
    } else {
        let ciphertext = input.subrange(0, input.len() - tag_length);
        let tag = input.subrange(input.len() - tag_length, input.len() as int);
        let siv = xor_zip(prf(ciphertext), tag);
        let plain = cipher(siv, ciphertext);
        if prf(aad + plain) == siv {
            Some(plain)
        } else {
            None
        }
    }
}

/// What the two functions ask of their parts: the keyed function gives
/// `tag_length` bytes, and the cipher keeps the length and undoes itself.
pub open spec fn riv_parts_fit(
    prf: spec_fn(Seq<u8>) -> Seq<u8>,
    cipher: spec_fn(Seq<u8>, Seq<u8>) -> Seq<u8>,
    tag_length: nat,
) -> bool {
    &&& forall|data: Seq<u8>| #[trigger] prf(data).len() == tag_length
    &&& forall|nonce: Seq<u8>, data: Seq<u8>| #[trigger]
        cipher(nonce, data).len() == data.len()
    &&& forall|nonce: Seq<u8>, data: Seq<u8>|
        cipher(nonce, #[trigger] cipher(nonce, data)) == data
}

/// Sealing adds the tag's length.
pub proof fn lemma_riv_sealed_length(
    prf: spec_fn(Seq<u8>) -> Seq<u8>,
    cipher: spec_fn(Seq<u8>, Seq<u8>) -> Seq<u8>,
    tag_length: nat,
    aad: Seq<u8>,
    input: Seq<u8>,
)
    requires
        riv_parts_fit(prf, cipher, tag_length),
    ensures
        riv_sealed(prf, cipher, aad, input).len() == input.len() + tag_length,
{
    let siv = prf(aad + input);
    let ciphertext = cipher(siv, input);
    assert(ciphertext.len() == input.len());
    assert(prf(ciphertext).len() == tag_length);
}

/// Opening takes the tag's length away.
pub proof fn lemma_riv_opened_length(
    prf: spec_fn(Seq<u8>) -> Seq<u8>,
    cipher: spec_fn(Seq<u8>, Seq<u8>) -> Seq<u8>,
    tag_length: nat,
    aad: Seq<u8>,
    input: Seq<u8>,
)
    requires
        riv_parts_fit(prf, cipher, tag_length),
    ensures
        riv_opened(prf, cipher, tag_length, aad, input) matches Some(plain) ==> plain.len()
            + tag_length == input.len(),
{
    if input.len() >= tag_length {
        let ciphertext = input.subrange(0, input.len() - tag_length);
        let tag = input.subrange(input.len() - tag_length, input.len() as int);
        let siv = xor_zip(prf(ciphertext), tag);
        assert(cipher(siv, ciphertext).len() == ciphertext.len());
    }
}

/// Whatever is handed in opens exactly where the keyed function leads from
/// the associated data and the decrypted bytes to the unmasked tag. A changed
/// ciphertext, tag or associated data opens only where it does.
pub proof fn lemma_riv_opens_only_what_verifies(
    prf: spec_fn(Seq<u8>) -> Seq<u8>,
    cipher: spec_fn(Seq<u8>, Seq<u8>) -> Seq<u8>,
    tag_length: nat,
    aad: Seq<u8>,
    input: Seq<u8>,
)
    requires
        input.len() >= tag_length,
    ensures
        riv_opened(prf, cipher, tag_length, aad, input) is Some <==> ({
            let ciphertext = input.subrange(0, input.len() - tag_length);
            let tag = input.subrange(input.len() - tag_length, input.len() as int);
            let siv = xor_zip(prf(ciphertext), tag);
            prf(aad + cipher(siv, ciphertext)) == siv
        }),
{
}

/// What was sealed opens again, and gives back what was sealed.
pub proof fn lemma_riv_round_trip(
    prf: spec_fn(Seq<u8>) -> Seq<u8>,
    cipher: spec_fn(Seq<u8>, Seq<u8>) -> Seq<u8>,
    tag_length: nat,
    aad: Seq<u8>,
    input: Seq<u8>,
)
    requires
        riv_parts_fit(prf, cipher, tag_length),
    ensures
        riv_opened(prf, cipher, tag_length, aad, riv_sealed(prf, cipher, aad, input)) == Some(
            input,
        ),
{
    let siv = prf(aad + input);
    let ciphertext = cipher(siv, input);
    let mask = prf(ciphertext);
    let tag = xor_zip(siv, mask);
    let sealed = ciphertext + tag;
    assert(siv.len() == tag_length);
    assert(mask.len() == tag_length);
    assert(ciphertext.len() == input.len());
    assert(sealed.subrange(0, sealed.len() - tag_length) =~= ciphertext);
    assert(sealed.subrange(sealed.len() - tag_length, sealed.len() as int) =~= tag);
    lemma_xor_zip_undo(siv, mask);
    assert(xor_zip(mask, tag) == siv);
    assert(cipher(siv, ciphertext) == input);
}

/// Sealing is a function of its inputs, and no two plaintexts seal to the
/// same bytes: under one key, nonce and associated data, two sealed messages
/// are equal exactly where the plaintexts are.
pub proof fn lemma_riv_sealing_is_injective(
    prf: spec_fn(Seq<u8>) -> Seq<u8>,
    cipher: spec_fn(Seq<u8>, Seq<u8>) -> Seq<u8>,
    tag_length: nat,
    aad: Seq<u8>,
    first: Seq<u8>,
    second: Seq<u8>,
)
    requires
        riv_parts_fit(prf, cipher, tag_length),
    ensures
        (first == second) <==> (riv_sealed(prf, cipher, aad, first) == riv_sealed(
            prf,
            cipher,
            aad,
            second,
        )),
{
    lemma_riv_round_trip(prf, cipher, tag_length, aad, first);
    lemma_riv_round_trip(prf, cipher, tag_length, aad, second);
}

} // verus!
