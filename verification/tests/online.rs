use sarkara::aead::online::{
    check_decrypt_lengths, check_encrypt_lengths, check_nonempty_decrypt_lengths,
    check_nonempty_encrypt_lengths, decrypt_take, encrypt_take, open_streaming,
    seal_streaming, Decryption, Encryption, Online,
};
use sarkara::aead::{AeadCipher, General};
use sarkara::auth::HMAC;
use sarkara::hash::Blake2b;
use sarkara::kex::kyber::Kyber;
use sarkara::kex::KeyExchange;
use sarkara::sealedbox::SealedBox;
use sarkara::stream::HC256;
use sarkara::utils::nonce::SystemRng;
use sarkara::Error;

#[test]
fn encrypt_take_withholds_the_last_block() {
    assert_eq!(encrypt_take(0, 0, 16), 0);
    assert_eq!(encrypt_take(1, 1, 16), 0);
    assert_eq!(encrypt_take(15, 15, 16), 0);
    assert_eq!(encrypt_take(16, 16, 16), 0);
    assert_eq!(encrypt_take(17, 17, 16), 16);
    assert_eq!(encrypt_take(31, 31, 16), 16);
    assert_eq!(encrypt_take(32, 32, 16), 16);
    assert_eq!(encrypt_take(33, 33, 16), 32);
    assert_eq!(encrypt_take(48, 100, 16), 32);
    assert_eq!(encrypt_take(100, 48, 16), 32);
    assert_eq!(encrypt_take(100, 0, 16), 0);
    assert_eq!(encrypt_take(5, 5, 1), 4);
    assert_eq!(encrypt_take(usize::MAX, usize::MAX, 16), usize::MAX - 15);
}

#[test]
fn decrypt_take_withholds_the_last_block_and_the_tag() {
    assert_eq!(decrypt_take(0, 0, 16, 16), 0);
    assert_eq!(decrypt_take(16, 0, 16, 16), 0);
    assert_eq!(decrypt_take(17, 1, 16, 16), 0);
    assert_eq!(decrypt_take(32, 16, 16, 16), 0);
    assert_eq!(decrypt_take(33, 17, 16, 16), 16);
    assert_eq!(decrypt_take(48, 32, 16, 16), 16);
    assert_eq!(decrypt_take(49, 33, 16, 16), 32);
    assert_eq!(decrypt_take(64, 48, 16, 16), 32);
    // the shorter of input and output plus tag counts
    assert_eq!(decrypt_take(64, 17, 16, 16), 16);
    assert_eq!(decrypt_take(33, 1000, 16, 16), 16);
    assert_eq!(decrypt_take(100, usize::MAX, 16, 16), 80);
    assert_eq!(decrypt_take(100, 100, 16, 32), 64);
    assert_eq!(decrypt_take(10, 10, 4, 0), 8);
}

#[test]
fn finalize_length_checks_of_a_mode_without_the_empty_message() {
    assert!(check_nonempty_encrypt_lengths(1, 17, 16).is_ok());
    assert!(check_nonempty_encrypt_lengths(10, 26, 16).is_ok());
    assert!(matches!(check_nonempty_encrypt_lengths(0, 16, 16), Err(Error::Length)));
    assert!(matches!(check_nonempty_encrypt_lengths(10, 25, 16), Err(Error::Length)));
    assert!(matches!(check_nonempty_encrypt_lengths(10, 3, 16), Err(Error::Length)));
    assert!(check_nonempty_decrypt_lengths(17, 1, 16).is_ok());
    assert!(check_nonempty_decrypt_lengths(26, 10, 16).is_ok());
    assert!(matches!(check_nonempty_decrypt_lengths(16, 0, 16), Err(Error::Length)));
    assert!(matches!(check_nonempty_decrypt_lengths(0, 0, 16), Err(Error::Length)));
    assert!(matches!(check_nonempty_decrypt_lengths(26, 11, 16), Err(Error::Length)));
    assert!(matches!(check_nonempty_decrypt_lengths(17, usize::MAX, 16), Err(Error::Length)));
}

#[test]
fn finalize_length_checks() {
    assert!(check_encrypt_lengths(10, 26, 16).is_ok());
    assert!(check_encrypt_lengths(0, 16, 16).is_ok());
    assert!(matches!(check_encrypt_lengths(10, 25, 16), Err(Error::Length)));
    assert!(matches!(check_encrypt_lengths(10, 27, 16), Err(Error::Length)));
    assert!(matches!(check_encrypt_lengths(10, 3, 16), Err(Error::Length)));
    assert!(matches!(check_encrypt_lengths(usize::MAX, 15, 16), Err(Error::Length)));
    assert!(check_decrypt_lengths(26, 10, 16).is_ok());
    assert!(check_decrypt_lengths(16, 0, 16).is_ok());
    assert!(matches!(check_decrypt_lengths(25, 10, 16), Err(Error::Length)));
    assert!(matches!(check_decrypt_lengths(27, 10, 16), Err(Error::Length)));
    assert!(matches!(check_decrypt_lengths(15, 0, 16), Err(Error::Length)));
    assert!(matches!(check_decrypt_lengths(15, usize::MAX, 16), Err(Error::Length)));
}

type Hhbb = General<HC256, HMAC<Blake2b>, Blake2b>;

fn chunkings(n: usize) -> Vec<Vec<usize>> {
    let mut all = vec![vec![], vec![n], vec![0, 0, n], vec![n, n], vec![n + 1]];
    for step in [1usize, 2, 3, 63, 64, 65, 100, 128, 129] {
        all.push((0..=n).step_by(step).collect());
    }
    all.push(vec![n / 2, n / 3, n]);
    all.push(vec![1, n / 2, n.saturating_sub(1), n]);
    all
}

fn message(n: usize) -> Vec<u8> {
    (0..n).map(|i| (i * 7 + 3) as u8).collect()
}

#[test]
fn streaming_seals_as_at_once() {
    let cipher = Hhbb::new(&[0x5c; 32]);
    let nonce = [9u8; 32];
    for n in [0usize, 1, 63, 64, 65, 127, 128, 129, 200, 256, 300] {
        let pt = message(n);
        let mut at_once = vec![0u8; n + 64];
        cipher.seal(&nonce, b"aad", &pt, &mut at_once).unwrap();
        for cuts in chunkings(n) {
            assert_eq!(seal_streaming(&cipher, &nonce, b"aad", &pt, &cuts), at_once);
        }
    }
}

#[test]
fn streaming_opens_as_at_once() {
    let cipher = Hhbb::new(&[0x5c; 32]);
    let nonce = [9u8; 32];
    for n in [0usize, 1, 63, 64, 65, 127, 128, 129, 200, 256, 300] {
        let pt = message(n);
        let mut ct = vec![0u8; n + 64];
        cipher.seal(&nonce, b"aad", &pt, &mut ct).unwrap();
        let mut at_once = vec![0u8; n];
        cipher.open(&nonce, b"aad", &ct, &mut at_once).unwrap();
        assert_eq!(at_once, pt);
        for cuts in chunkings(n + 64) {
            assert_eq!(open_streaming(&cipher, &nonce, b"aad", &ct, &cuts).unwrap(), pt);
            let mut forged = ct.clone();
            forged[n / 2] ^= 1;
            assert!(matches!(
                open_streaming(&cipher, &nonce, b"aad", &forged, &cuts),
                Err(Error::VerificationFailed)
            ));
            assert!(matches!(
                open_streaming(&cipher, &nonce, b"aae", &ct, &cuts),
                Err(Error::VerificationFailed)
            ));
        }
    }
    assert!(matches!(
        open_streaming(&cipher, &nonce, b"", &[1, 2, 3], &[]),
        Err(Error::Length)
    ));
}

#[test]
fn process_withholds_and_finalize_completes() {
    let cipher = Hhbb::new(&[1; 32]);
    let nonce = [2u8; 32];
    let input = message(150);
    let mut whole = vec![0u8; 150 + 64];
    cipher.seal(&nonce, b"x", &input, &mut whole).unwrap();

    let mut process = Online::encrypt(&cipher, &nonce, b"x");
    let mut output = [0xa5u8; 150];
    let done = process.process(&input, &mut output).len();
    assert_eq!(done, 128);
    assert_eq!(&output[..128], &whole[..128]);
    // what lies behind the bytes taken is left as it was
    assert_eq!(output[128..], [0xa5u8; 22]);
    // what was withheld is handed in again
    let mut last = [0u8; 22 + 64];
    process.finalize(&input[done..], &mut last).unwrap();
    assert_eq!(&last[..], &whole[128..]);

    // a full last block is withheld too
    let mut process = Online::encrypt(&cipher, &nonce, b"x");
    let mut output = [0u8; 128];
    assert_eq!(process.process(&input[..128], &mut output).len(), 64);
    assert_eq!(process.process(&input[64..128], &mut output[64..]).len(), 0);
    // the shorter buffer counts
    assert_eq!(process.process(&input[64..], &mut output[..65]).len(), 64);

    let process = Online::encrypt(&cipher, &nonce, b"x");
    let mut wrong = [7u8; 10];
    assert!(matches!(process.finalize(&input, &mut wrong), Err(Error::Length)));
    assert_eq!(wrong, [7u8; 10]);
}

#[test]
fn decrypting_process_releases_nothing_of_the_tail_before_the_tag_verifies() {
    let cipher = Hhbb::new(&[1; 32]);
    let nonce = [2u8; 32];
    let input = message(150);
    let mut ct = vec![0u8; 150 + 64];
    cipher.seal(&nonce, b"x", &input, &mut ct).unwrap();

    let mut process = Online::decrypt(&cipher, &nonce, b"x");
    let mut output = [0x5au8; 150];
    let done = process.process(&ct, &mut output).len();
    assert_eq!(done, 128);
    assert_eq!(&output[..128], &input[..128]);
    assert_eq!(output[128..], [0x5au8; 22]);
    let mut last = [0xeeu8; 22];
    process.finalize(&ct[done..], &mut last).unwrap();
    assert_eq!(&last[..], &input[128..]);

    // with a wrong tag the buffer stays as it was
    let mut process = Online::decrypt(&cipher, &nonce, b"x");
    let done = process.process(&ct, &mut output).len();
    let mut forged = ct[done..].to_vec();
    let end = forged.len() - 1;
    forged[end] ^= 1;
    let mut last = [0xeeu8; 22];
    assert!(matches!(process.finalize(&forged, &mut last), Err(Error::VerificationFailed)));
    assert_eq!(last, [0xeeu8; 22]);

    let process = Online::decrypt(&cipher, &nonce, b"x");
    let mut wrong = [7u8; 151];
    assert!(matches!(process.finalize(&ct, &mut wrong), Err(Error::Length)));
    assert_eq!(wrong, [7u8; 151]);
}

#[test]
fn sealing_and_opening_sides_stream_too() {
    let mut rng = SystemRng::new().unwrap();
    let (sk, pk) = Kyber::keypair(&mut rng);
    let (msg, sealing) = SealedBox::<Kyber, Hhbb>::send(&mut rng, &pk);
    let opening = SealedBox::<Kyber, Hhbb>::recv(&sk, &msg);
    let nonce = [0u8; 32];
    let input = message(100);

    let mut process = sealing.encrypt(&nonce, b"aad");
    let mut ct = vec![0u8; 100 + 64];
    let done = process.process(&input, &mut ct).len();
    assert_eq!(done, 64);
    process.finalize(&input[done..], &mut ct[done..]).unwrap();

    let mut process = opening.decrypt(&nonce, b"aad");
    let mut pt = vec![0u8; 100];
    let done = process.process(&ct, &mut pt).len();
    assert_eq!(done, 64);
    process.finalize(&ct[done..], &mut pt[done..]).unwrap();
    assert_eq!(pt, input);

    let mut at_once = vec![0u8; 100];
    opening.open(&nonce, b"aad", &ct, &mut at_once).unwrap();
    assert_eq!(at_once, input);
}
