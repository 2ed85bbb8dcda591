use sarkara::aead::{AeadCipher, Ascon, General};
use sarkara::auth::HMAC;
use sarkara::hash::Blake2b;
use sarkara::secretbox::SecretBox;
use sarkara::stream::HC256;
use sarkara::utils::nonce::{Counter, GenNonce, SystemRng};
use sarkara::utils::Bytes;
use sarkara::Error;

type Hhbb = General<HC256, HMAC<Blake2b>, Blake2b>;

#[test]
fn seal_open_test() {
    let mut rng = SystemRng::new().unwrap();
    let key = Bytes::random(&mut rng, Ascon::KEY_LENGTH);
    let data = rng.gen(64);
    let ciphertext = SecretBox::<Ascon>::seal(&mut rng, &key, &data);
    let plaintext = SecretBox::<Ascon>::open(&key, &ciphertext).unwrap();

    assert_eq!(plaintext, &data[..]);
    assert!(SecretBox::<Ascon>::open(&key, &ciphertext[..ciphertext.len() - 1]).is_err());
    assert!(SecretBox::<Ascon>::open(&key, &ciphertext[1..]).is_err());
}

#[test]
fn secretbox_layout() {
    let key = [3u8; 32];
    let data = [4u8; 100];
    let mut counter = Counter(5);
    let boxed = SecretBox::<Hhbb>::seal_with_nonce(&mut counter, &key, &data);
    assert_eq!(boxed.len(), 32 + 100 + 64);
    let mut nonce = [0u8; 32];
    nonce[31] = 5;
    assert_eq!(&boxed[..32], &nonce);
    // what follows the nonce is the data sealed with the nonce as associated data
    let mut sealed = vec![0u8; 164];
    Hhbb::new(&key).seal(&nonce, &nonce, &data, &mut sealed).unwrap();
    assert_eq!(&boxed[32..], &sealed[..]);
    assert_eq!(SecretBox::<Hhbb>::seal_under(&key, &nonce, &data), boxed);
    assert_eq!(SecretBox::<Hhbb>::open(&key, &boxed).unwrap(), &data[..]);
    // the generator was asked once: the next box has the next nonce
    assert_eq!(counter.0, 6);
    let next = SecretBox::<Hhbb>::seal_with_nonce(&mut counter, &key, &data);
    assert_eq!(next[31], 6);
    assert_eq!(counter.0, 7);
    assert_ne!(next[32..], boxed[32..]);
}

#[test]
fn secretbox_rejects() {
    let key = [3u8; 32];
    let data = [4u8; 10];
    let nonce = [8u8; 32];
    let boxed = SecretBox::<Hhbb>::seal_under(&key, &nonce, &data);
    for len in 0..(32 + 64) {
        assert!(matches!(SecretBox::<Hhbb>::open(&key, &boxed[..len]), Err(Error::Length)));
    }
    assert!(matches!(
        SecretBox::<Hhbb>::open(&key, &boxed[..32 + 64]),
        Err(Error::VerificationFailed)
    ));
    for at in [0, 31, 32, 41, 42, boxed.len() - 1] {
        let mut forged = boxed.clone();
        forged[at] ^= 1;
        assert!(matches!(
            SecretBox::<Hhbb>::open(&key, &forged),
            Err(Error::VerificationFailed)
        ));
    }
    assert!(matches!(
        SecretBox::<Hhbb>::open(&[2u8; 32], &boxed),
        Err(Error::VerificationFailed)
    ));
    // the empty message
    let empty = SecretBox::<Hhbb>::seal_under(&key, &nonce, &[]);
    assert_eq!(empty.len(), 32 + 64);
    assert_eq!(SecretBox::<Hhbb>::open(&key, &empty).unwrap(), Vec::<u8>::new());
}
