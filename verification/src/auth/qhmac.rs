//! HMAC with a nonce: the nonce keys both hashes.
//!
//! `H(nonce, (K xor opad) || H(nonce, (K xor ipad) || text))`

use vstd::prelude::*;

use super::{Mac, NonceMac};
use crate::hash::GenericHash;
use crate::hash::Hash as _;
use crate::seqs::{xor_in_place, xor_zip};
use crate::utils::Bytes;

verus! {

/// The length of the two pads.
pub const PAD_LENGTH: usize = 64;

/// The byte that fills the inner pad.
pub const INNER_PAD: u8 = 0x36;

/// The byte that fills the outer pad.
pub const OUTER_PAD: u8 = 0x5c;

/// A pad of `fill` bytes with `key` xored into it.
pub open spec fn keyed_pad(fill: u8, key: Seq<u8>) -> Seq<u8> {
    xor_zip(Seq::new(PAD_LENGTH as nat, |i: int| fill), key)
}

/// The tag that the construction gives over the hash `H`.
pub open spec fn hmac_tag<H: crate::hash::Hash>(
    key: Seq<u8>,
    nonce: Seq<u8>,
    size: nat,
    data: Seq<u8>,
) -> Seq<u8> {
    let inner = H::digest(H::DIGEST_LENGTH as nat, nonce, keyed_pad(INNER_PAD, key) + data);
    H::digest(size, nonce, keyed_pad(OUTER_PAD, key) + inner)
}

/// HMAC, nonce variant.
pub struct HMAC<H> {
    key: Bytes,
    ih: H,
    oh: H,
}

impl<H: crate::hash::Hash> HMAC<H> {
    /// The pad of `fill` bytes with the key xored into it.
    fn pad(&self, fill: u8) -> (pad: Bytes)
        ensures
            pad@ == keyed_pad(fill, self.key@),
    {
        let mut pad = Bytes(vec![fill; PAD_LENGTH]);
        assert(pad@ =~= Seq::new(PAD_LENGTH as nat, |i: int| fill));
        xor_in_place(&mut pad.0, self.key.as_slice());
        pad
    }
}

impl<H: GenericHash> HMAC<H> {
    /// The lengths of the key, the tag and the nonce.
    pub proof fn lengths()
        ensures
            Self::KEY_LENGTH == 32,
            Self::TAG_LENGTH == H::DIGEST_LENGTH,
            Self::NONCE_LENGTH == 32,
    {
    }
}

impl<H: crate::hash::Hash> Clone for HMAC<H> {
    fn clone(&self) -> (mac: Self)
        ensures
            mac.valid() == self.valid(),
            mac.key() == self.key(),
            mac.nonce() == self.nonce(),
            mac.size() == self.size(),
    {
        let ih = self.ih.clone();
        let oh = self.oh.clone();
        proof {
            H::clone_law(&self.ih, &ih);
            H::clone_law(&self.oh, &oh);
        }
        HMAC { key: self.key.clone(), ih, oh }
    }
}

impl<H: crate::hash::Hash> Mac for HMAC<H> {
    const KEY_LENGTH: usize = 32;

    const TAG_LENGTH: usize = H::DIGEST_LENGTH;

    /// The hash must take no key and a key of 32 bytes.
    open spec fn supported() -> bool {
        &&& H::accepts(H::DIGEST_LENGTH as nat, 0)
        &&& H::accepts(H::DIGEST_LENGTH as nat, 32)
    }

    closed spec fn valid(&self) -> bool {
        &&& Self::supported()
        &&& self.key@.len() == 32
        &&& self.ih.size() == H::DIGEST_LENGTH
        &&& self.ih.key() == self.oh.key()
        &&& (self.oh.key().len() == 0 || self.oh.key().len() == 32)
        &&& H::accepts(self.oh.size(), 0)
        &&& H::accepts(self.oh.size(), 32)
    }

    closed spec fn key(&self) -> Seq<u8> {
        self.key@
    }

    closed spec fn nonce(&self) -> Seq<u8> {
        self.oh.key()
    }

    closed spec fn size(&self) -> nat {
        self.oh.size()
    }

    open spec fn tag(key: Seq<u8>, nonce: Seq<u8>, size: nat, data: Seq<u8>) -> Seq<u8> {
        hmac_tag::<H>(key, nonce, size, data)
    }

    proof fn tag_has_size(key: Seq<u8>, nonce: Seq<u8>, size: nat, data: Seq<u8>) {
        let inner = H::digest(H::DIGEST_LENGTH as nat, nonce, keyed_pad(INNER_PAD, key) + data);
        H::digest_has_size(size, nonce, keyed_pad(OUTER_PAD, key) + inner);
    }

    proof fn clone_law(a: &Self, b: &Self) {
    }

    fn new(key: &[u8]) -> (mac: Self) {
        HMAC { key: Bytes::new(key), ih: H::default(), oh: H::default() }
    }

    fn result(&self, data: &[u8]) -> (tag: Vec<u8>) {
        let mut ipad = self.pad(INNER_PAD);
        let mut opad = self.pad(OUTER_PAD);
        ipad.0.extend_from_slice(data);
        assert(ipad@ == keyed_pad(INNER_PAD, self.key@) + data@);
        let mut inner = self.ih.hash(ipad.as_slice());
        let ghost digest = inner@;
        opad.0.append(&mut inner);
        assert(opad@ == keyed_pad(OUTER_PAD, self.key@) + digest);
        self.oh.hash(opad.as_slice())
    }
}

impl<H: GenericHash> NonceMac for HMAC<H> {
    const NONCE_LENGTH: usize = 32;

    /// The hash must give digests of that length, with no key and with a key
    /// of 32 bytes.
    open spec fn size_allowed(len: nat) -> bool {
        H::accepts(len, 0) && H::accepts(len, 32)
    }

    #[inline]
    fn with_nonce(&mut self, nonce: &[u8]) -> (r: &mut Self) {
        self.ih.with_key(nonce);
        self.oh.with_key(nonce);
        self
    }

    #[inline]
    fn with_size(&mut self, len: usize) -> (r: &mut Self) {
        self.oh.with_size(len);
        self
    }
}

} // verus!
