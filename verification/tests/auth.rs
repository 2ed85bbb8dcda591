use sarkara::auth::{Mac, NonceMac, HMAC};
use sarkara::hash::Blake2b;

#[test]
fn hmac_of_nothing() {
    assert_eq!(
        HMAC::<Blake2b>::new(&[5; 32]).result(&[]),
        &[
            194, 146, 2, 54, 145, 176, 76, 56, 71, 226, 163, 78, 115, 255, 194, 236, 97, 247, 113,
            31, 27, 97, 130, 65, 159, 245, 153, 168, 253, 62, 35, 36, 21, 99, 142, 146, 89, 45, 34,
            157, 59, 93, 191, 9, 78, 149, 97, 232, 59, 119, 148, 57, 70, 50, 233, 84, 22, 255, 81,
            102, 20, 137, 181, 124
        ][..]
    );
}

#[test]
fn hmac_with_size_and_nonce() {
    assert_eq!(
        HMAC::<Blake2b>::new(&[5; 32]).with_size(16).with_nonce(&[1; 32]).result(&[]),
        &[179, 8, 125, 182, 165, 35, 131, 1, 242, 7, 138, 85, 27, 77, 214, 216]
    );
}

#[test]
fn hmac_of_zero_key_under_nonce_of_ones() {
    // key of 32 zero bytes, nonce of 32 ones, no data: the two pads are the bare
    // fill bytes, and both hashes are keyed with the nonce
    let nonce = [1u8; 32];
    let inner = blake2_rfc::blake2b::blake2b(64, &nonce, &[0x36; 64]);
    let mut outer = vec![0x5c; 64];
    outer.extend_from_slice(inner.as_bytes());
    let expected = blake2_rfc::blake2b::blake2b(64, &nonce, &outer);
    let tag = HMAC::<Blake2b>::new(&[0; 32]).with_nonce(&nonce).result(&[]);
    assert_eq!(tag, expected.as_bytes());
    assert_eq!(
        &tag[..8],
        &HMAC::<Blake2b>::new(&[0; 32]).with_nonce(&nonce).result(&[])[..8]
    );
    // with data, and a key that is not zero
    let mut ipad = vec![0x36 ^ 5; 32];
    ipad.extend_from_slice(&[0x36; 32]);
    ipad.extend_from_slice(b"data");
    let inner = blake2_rfc::blake2b::blake2b(64, &nonce, &ipad);
    let mut opad = vec![0x5c ^ 5; 32];
    opad.extend_from_slice(&[0x5c; 32]);
    opad.extend_from_slice(inner.as_bytes());
    let expected = blake2_rfc::blake2b::blake2b(20, &nonce, &opad);
    let tag = HMAC::<Blake2b>::new(&[5; 32]).with_size(20).with_nonce(&nonce).result(b"data");
    assert_eq!(tag, expected.as_bytes());
}

#[test]
fn hmac_lengths() {
    assert_eq!(<HMAC<Blake2b> as Mac>::KEY_LENGTH, 32);
    assert_eq!(<HMAC<Blake2b> as Mac>::TAG_LENGTH, 64);
    assert_eq!(<HMAC<Blake2b> as NonceMac>::NONCE_LENGTH, 32);
    let mut mac = HMAC::<Blake2b>::new(&[0; 32]);
    assert_eq!(mac.result(b"data").len(), 64);
    assert_eq!(mac.with_size(20).result(b"data").len(), 20);
}

#[test]
fn hmac_verify_accepts_its_own_tag_only() {
    let mut mac = HMAC::<Blake2b>::new(&[0; 32]);
    mac.with_nonce(&[1; 32]);
    let tag = mac.result(b"message");
    assert!(mac.verify(b"message", &tag));
    assert!(!mac.verify(b"messagf", &tag));
    assert!(!mac.verify(b"message", &tag[..63]));
    for i in 0..tag.len() {
        let mut forged = tag.clone();
        forged[i] ^= 1;
        assert!(!mac.verify(b"message", &forged));
    }
}

#[test]
fn hmac_clone_authenticates_alike() {
    let mut mac = HMAC::<Blake2b>::new(&[9; 32]);
    mac.with_size(24).with_nonce(&[3; 32]);
    let copy = mac.clone();
    assert_eq!(mac.result(b"abc"), copy.result(b"abc"));
}

#[test]
fn hmac_depends_on_key_and_nonce() {
    let mut a = HMAC::<Blake2b>::new(&[1; 32]);
    let mut b = HMAC::<Blake2b>::new(&[2; 32]);
    assert_ne!(a.result(b"x"), b.result(b"x"));
    a.with_nonce(&[7; 32]);
    b.with_nonce(&[7; 32]);
    assert_ne!(a.result(b"x"), b.result(b"x"));
    let mut c = HMAC::<Blake2b>::new(&[1; 32]);
    c.with_nonce(&[8; 32]);
    assert_ne!(a.result(b"x"), c.result(b"x"));
}
