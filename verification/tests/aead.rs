use sarkara::aead::ascon::error_of;
use sarkara::aead::{AeadCipher, Ascon, General, GeneralRiv, NorxMRS, RivGeneral};
use sarkara::auth::{Mac, NonceMac, HMAC};
use sarkara::hash::Hash as _;
use sarkara::hash::{Blake2b, GenericHash};
use sarkara::stream::{StreamCipher, HC256};
use sarkara::utils::nonce::{GenNonce, SystemRng};
use sarkara::Error;

type Hhbb = General<HC256, HMAC<Blake2b>, Blake2b>;
type Hrb = GeneralRiv<HC256, Blake2b>;
type Hrhb = RivGeneral<HC256, HMAC<Blake2b>, Blake2b>;

fn is_length(r: Result<(), Error>) -> bool {
    matches!(r, Err(Error::Length))
}

fn is_failed(r: Result<(), Error>) -> bool {
    matches!(r, Err(Error::VerificationFailed))
}

fn round_trip_and_tamper<AE: AeadCipher>() {
    let mut rng = SystemRng::new().unwrap();
    for i in 0..130 {
        let key = rng.gen(AE::KEY_LENGTH);
        let nonce = rng.gen(AE::NONCE_LENGTH);
        let aad = rng.gen(i % 34);
        let pt = rng.gen(i);
        let mut ct = vec![0u8; pt.len() + AE::TAG_LENGTH];
        let mut ot = vec![0xa5u8; pt.len()];

        let cipher = AE::new(&key);
        cipher.seal(&nonce, &aad, &pt, &mut ct).unwrap();
        cipher.open(&nonce, &aad, &ct, &mut ot).unwrap();
        assert_eq!(pt, ot);

        // the same inputs seal to the same bytes
        let mut again = vec![0u8; ct.len()];
        AE::new(&key).seal(&nonce, &aad, &pt, &mut again).unwrap();
        assert_eq!(ct, again);

        // a changed byte anywhere in ciphertext or tag is refused, and the
        // output buffer is left alone
        for at in [0, i / 2, i, ct.len() - 1] {
            let mut forged = ct.clone();
            forged[at] ^= 0x42;
            let mut out = vec![0x5au8; pt.len()];
            assert!(is_failed(cipher.open(&nonce, &aad, &forged, &mut out)));
            assert_eq!(out, vec![0x5au8; pt.len()]);
        }

        // changed associated data is refused
        let mut other = aad.clone();
        other.push(1);
        let mut out = vec![0x5au8; pt.len()];
        assert!(is_failed(cipher.open(&nonce, &other, &ct, &mut out)));
        assert_eq!(out, vec![0x5au8; pt.len()]);
        if !aad.is_empty() {
            let mut other = aad.clone();
            other[0] ^= 1;
            assert!(is_failed(cipher.open(&nonce, &other, &ct, &mut out)));
        }

        // a changed nonce and another key are refused (where there is anything to
        // seal: see `robust_tag_of_nothing`)
        if i > 0 {
            let mut other = nonce.clone();
            other[0] ^= 1;
            assert!(is_failed(cipher.open(&other, &aad, &ct, &mut out)));
            let mut other = key.clone();
            other[0] ^= 1;
            assert!(is_failed(AE::new(&other).open(&nonce, &aad, &ct, &mut out)));
        }
    }
}

fn length_errors<AE: AeadCipher>() {
    let key = vec![1u8; AE::KEY_LENGTH];
    let nonce = vec![2u8; AE::NONCE_LENGTH];
    let cipher = AE::new(&key);
    let pt = [3u8; 20];
    let mut ct = vec![0u8; 20 + AE::TAG_LENGTH];

    let mut short = vec![7u8; 20 + AE::TAG_LENGTH - 1];
    assert!(is_length(cipher.seal(&nonce, &[], &pt, &mut short)));
    assert_eq!(short, vec![7u8; 20 + AE::TAG_LENGTH - 1]);
    let mut long = vec![7u8; 20 + AE::TAG_LENGTH + 1];
    assert!(is_length(cipher.seal(&nonce, &[], &pt, &mut long)));
    let mut tiny = vec![7u8; 0];
    assert!(is_length(cipher.seal(&nonce, &[], &pt, &mut tiny)));
    assert!(is_length(cipher.seal(&nonce[1..], &[], &pt, &mut ct)));
    let mut longer = nonce.clone();
    longer.push(0);
    assert!(is_length(cipher.seal(&longer, &[], &pt, &mut ct)));

    cipher.seal(&nonce, &[], &pt, &mut ct).unwrap();
    let mut ot = vec![9u8; 19];
    assert!(is_length(cipher.open(&nonce, &[], &ct, &mut ot)));
    assert_eq!(ot, vec![9u8; 19]);
    let mut ot = vec![9u8; 21];
    assert!(is_length(cipher.open(&nonce, &[], &ct, &mut ot)));
    let mut ot = vec![9u8; 20];
    assert!(is_length(cipher.open(&nonce[1..], &[], &ct, &mut ot)));
    let mut none = vec![0u8; 0];
    assert!(is_length(cipher.open(&nonce, &[], &ct[..AE::TAG_LENGTH - 1], &mut none)));
    // a tag alone, for the empty message
    let mut tag = vec![0u8; AE::TAG_LENGTH];
    cipher.seal(&nonce, b"aad", &[], &mut tag).unwrap();
    cipher.open(&nonce, b"aad", &tag, &mut none).unwrap();
    tag[0] ^= 1;
    assert!(is_failed(cipher.open(&nonce, b"aad", &tag, &mut none)));
}

#[test]
fn general_round_trip() {
    round_trip_and_tamper::<Hhbb>();
    length_errors::<Hhbb>();
}

#[test]
fn general_riv_round_trip() {
    round_trip_and_tamper::<Hrb>();
    length_errors::<Hrb>();
}

#[test]
fn riv_general_round_trip() {
    round_trip_and_tamper::<Hrhb>();
    length_errors::<Hrhb>();
}

#[test]
fn ascon_round_trip() {
    round_trip_and_tamper::<Ascon>();
    length_errors::<Ascon>();
}

#[test]
fn norx_mrs_round_trip() {
    round_trip_and_tamper::<NorxMRS>();
    length_errors::<NorxMRS>();
}

#[test]
fn aead_lengths() {
    assert_eq!((Hhbb::KEY_LENGTH, Hhbb::NONCE_LENGTH, Hhbb::TAG_LENGTH), (32, 32, 64));
    assert_eq!((Hrb::KEY_LENGTH, Hrb::NONCE_LENGTH, Hrb::TAG_LENGTH), (32, 32, 32));
    assert_eq!((Hrhb::KEY_LENGTH, Hrhb::NONCE_LENGTH, Hrhb::TAG_LENGTH), (32, 32, 32));
    assert_eq!((Ascon::KEY_LENGTH, Ascon::NONCE_LENGTH, Ascon::TAG_LENGTH), (16, 16, 16));
    assert_eq!((NorxMRS::KEY_LENGTH, NorxMRS::NONCE_LENGTH, NorxMRS::TAG_LENGTH), (32, 16, 32));
}

#[test]
fn general_is_encrypt_then_mac() {
    let key = [7u8; 32];
    let nonce = [9u8; 32];
    let aad = b"associated";
    let data = b"some plaintext";

    let mut cipher = Hhbb::new(&key);
    let sealed = cipher.with_aad(aad).encrypt(&nonce, data);

    let ciphertext = HC256::new(&key).process(&nonce, data);
    let mac_key = Blake2b::default().with_size(32).hash(&key);
    let mut nonce_and_aad = nonce.to_vec();
    nonce_and_aad.extend_from_slice(aad);
    let mac_nonce = Blake2b::default().with_size(32).hash(&nonce_and_aad);
    let mut aad_and_ciphertext = aad.to_vec();
    aad_and_ciphertext.extend_from_slice(&ciphertext);
    let tag = HMAC::<Blake2b>::new(&mac_key).with_nonce(&mac_nonce).result(&aad_and_ciphertext);

    assert_eq!(&sealed[..data.len()], &ciphertext[..]);
    assert_eq!(&sealed[data.len()..], &tag[..]);
    assert_eq!(cipher.decrypt(&nonce, &sealed).unwrap(), data);
}

#[test]
fn general_encrypt_and_decrypt_with_set_aad() {
    let key = [1u8; 32];
    let nonce = [2u8; 32];
    let data = vec![5u8; 1024];
    let ciphertext = Hhbb::new(&key).with_aad(&nonce).encrypt(&nonce, &data);
    assert_eq!(ciphertext.len(), 1024 + 64);
    let plaintext = Hhbb::new(&key).with_aad(&nonce).decrypt(&nonce, &ciphertext).unwrap();
    assert_eq!(plaintext, data);
    // the associated data that was set is what counts
    assert!(matches!(
        Hhbb::new(&key).decrypt(&nonce, &ciphertext),
        Err(Error::VerificationFailed)
    ));
    assert!(matches!(
        Hhbb::new(&key).with_aad(&nonce).decrypt(&nonce, &ciphertext[..63]),
        Err(Error::Length)
    ));
    // sealing through the trait gives the same bytes
    let mut sealed = vec![0u8; 1024 + 64];
    Hhbb::new(&key).seal(&nonce, &nonce, &data, &mut sealed).unwrap();
    assert_eq!(sealed, ciphertext);
}

#[test]
fn general_riv_is_the_synthetic_nonce_construction() {
    let key = [7u8; 32];
    let nonce = [9u8; 32];
    let aad = b"associated";
    let data = b"some plaintext";

    let mut cipher = Hrb::new(&key);
    let sealed = cipher.with_aad(aad).encrypt(&nonce, data);

    let mut hash = Blake2b::default();
    hash.with_size(32).with_key(&nonce);
    let mut aad_and_data = aad.to_vec();
    aad_and_data.extend_from_slice(data);
    let siv = hash.hash(&aad_and_data);
    let ciphertext = HC256::new(&key).process(&siv, data);
    let mask = hash.hash(&ciphertext);
    let tag: Vec<u8> = siv.iter().zip(&mask).map(|(a, b)| a ^ b).collect();

    assert_eq!(&sealed[..data.len()], &ciphertext[..]);
    assert_eq!(&sealed[data.len()..], &tag[..]);
    assert_eq!(cipher.decrypt(&nonce, &sealed).unwrap(), data);
}

#[test]
fn riv_general_is_the_synthetic_nonce_construction() {
    let key = [7u8; 32];
    let nonce = [9u8; 32];
    let aad = b"associated";
    let data = b"some plaintext";

    let mut cipher = Hrhb::new(&key);
    let sealed = cipher.with_aad(aad).encrypt(&nonce, data);

    let mac_key = Blake2b::default().with_size(32).hash(&key);
    let mut mac = HMAC::<Blake2b>::new(&mac_key);
    mac.with_size(32).with_nonce(&nonce);
    let mut aad_and_data = aad.to_vec();
    aad_and_data.extend_from_slice(data);
    let siv = mac.result(&aad_and_data);
    let ciphertext = HC256::new(&key).process(&siv, data);
    let mask = mac.result(&ciphertext);
    let tag: Vec<u8> = siv.iter().zip(&mask).map(|(a, b)| a ^ b).collect();

    assert_eq!(&sealed[..data.len()], &ciphertext[..]);
    assert_eq!(&sealed[data.len()..], &tag[..]);
    assert_eq!(cipher.decrypt(&nonce, &sealed).unwrap(), data);
}

#[test]
fn robust_constructions_are_deterministic_and_tell_plaintexts_apart() {
    let key = [1u8; 32];
    let nonce = [2u8; 32];
    let a = Hrb::new(&key).with_aad(b"aad").encrypt(&nonce, b"first message");
    let b = Hrb::new(&key).with_aad(b"aad").encrypt(&nonce, b"first message");
    let c = Hrb::new(&key).with_aad(b"aad").encrypt(&nonce, b"first messagf");
    assert_eq!(a, b);
    assert_ne!(a, c);
    // the ciphertexts differ beyond the one changed byte: the synthetic nonce changed
    assert_ne!(a[..12], c[..12]);
    let a = Hrhb::new(&key).with_aad(b"aad").encrypt(&nonce, b"first message");
    let b = Hrhb::new(&key).with_aad(b"aad").encrypt(&nonce, b"first message");
    let c = Hrhb::new(&key).with_aad(b"aad").encrypt(&nonce, b"first messagf");
    assert_eq!(a, b);
    assert_ne!(a, c);
    assert_ne!(a[..12], c[..12]);
    assert!(matches!(
        Hrb::new(&key).with_aad(b"aad").decrypt(&nonce, &a[..31]),
        Err(Error::Length)
    ));
    assert!(matches!(
        Hrhb::new(&key).with_aad(b"aae").decrypt(&nonce, &a),
        Err(Error::VerificationFailed)
    ));
}

#[test]
fn robust_tag_of_nothing() {
    // With no associated data and no plaintext, the synthetic nonce and its mask
    // are the same bytes, so the tag is zero under every key and nonce.
    let sealed = Hrb::new(&[1u8; 32]).encrypt(&[2u8; 32], &[]);
    assert_eq!(sealed, vec![0u8; 32]);
    assert_eq!(Hrb::new(&[3u8; 32]).decrypt(&[4u8; 32], &sealed).unwrap(), Vec::<u8>::new());
    let sealed = Hrhb::new(&[1u8; 32]).encrypt(&[2u8; 32], &[]);
    assert_eq!(sealed, vec![0u8; 32]);
    // the general construction has no such case
    let mut none = vec![0u8; 0];
    let mut tag = vec![0u8; 64];
    Hhbb::new(&[1u8; 32]).seal(&[2u8; 32], &[], &[], &mut tag).unwrap();
    assert!(is_failed(Hhbb::new(&[3u8; 32]).open(&[2u8; 32], &[], &tag, &mut none)));
    assert!(is_failed(Hhbb::new(&[1u8; 32]).open(&[4u8; 32], &[], &tag, &mut none)));
}

#[test]
fn norx_mrs_seals_with_the_permutation() {
    let key = [1u8; 32];
    let nonce = [2u8; 16];
    let data = [0u8; 96];
    let mut sealed = vec![0u8; 96 + 32];
    NorxMRS::new(&key).seal(&nonce, b"aad", &data, &mut sealed).unwrap();
    // neither the plaintext handed back nor a keystream that repeats
    assert_ne!(&sealed[..96], &data[..]);
    assert_ne!(&sealed[..48], &sealed[48..96]);
    assert_ne!(&sealed[96..], &[0u8; 32]);
    // a function of key, nonce, associated data and message
    let mut again = vec![0u8; 96 + 32];
    NorxMRS::new(&key).seal(&nonce, b"aad", &data, &mut again).unwrap();
    assert_eq!(sealed, again);
    for (k, n, a) in [([3u8; 32], nonce, &b"aad"[..]), (key, [4u8; 16], b"aad"), (key, nonce, b"aae")]
    {
        let mut other = vec![0u8; 96 + 32];
        NorxMRS::new(&k).seal(&n, a, &data, &mut other).unwrap();
        assert_ne!(other[..96], sealed[..96]);
        assert_ne!(other[96..], sealed[96..]);
    }
    // misuse resistance: another message under the same nonce changes the whole ciphertext
    let mut data2 = data;
    data2[95] = 1;
    let mut other = vec![0u8; 96 + 32];
    NorxMRS::new(&key).seal(&nonce, b"aad", &data2, &mut other).unwrap();
    assert_ne!(other[..48], sealed[..48]);
}

#[test]
fn ascon_known_answer() {
    let key = [0; 16];
    let iv = [0; 16];
    let mut cipher = Ascon::new(&key);
    let sealed = cipher.with_aad(b"ASCON").encrypt(&iv, b"ascon");
    assert_eq!(&sealed[..5], &[0x4c, 0x8c, 0x42, 0x89, 0x49]);
    assert_eq!(
        &sealed[5..],
        &[
            0x65, 0xfd, 0x17, 0xb6, 0xd3, 0x0c, 0xd8, 0x76, 0xa0, 0x5a, 0x8e, 0xfc, 0xec, 0xad,
            0x99, 0x3a
        ]
    );
    assert_eq!(cipher.decrypt(&iv, &sealed).unwrap(), b"ascon");
    assert!(matches!(cipher.decrypt(&iv, &sealed[..15]), Err(Error::Length)));
    assert!(matches!(cipher.decrypt(&iv, &sealed[1..]), Err(Error::VerificationFailed)));
}

#[test]
fn ascon_errors_map_to_the_library() {
    assert!(matches!(error_of(ascon::DecryptFail::TagLengthError), Error::Length));
    assert!(matches!(
        error_of(ascon::DecryptFail::AuthenticationFail),
        Error::VerificationFailed
    ));
}

#[test]
fn error_messages() {
    assert_eq!(Error::Length.message(), "Input/Output length does not match");
    assert_eq!(Error::VerificationFailed.message(), "Fail to pass verification");
}

#[test]
fn a_fresh_cipher_has_no_associated_data() {
    let key = [0u8; 32];
    let nonce = [1u8; 32];
    // an empty ciphertext and a tag of zeros: what the robust constructions seal
    // of nothing under no associated data
    assert_eq!(Hrhb::new(&key).decrypt(&nonce, &[0u8; 32]).unwrap(), Vec::<u8>::new());
    assert_eq!(Hrb::new(&key).decrypt(&nonce, &[0u8; 32]).unwrap(), Vec::<u8>::new());
    assert_eq!(Hrhb::new(&key).encrypt(&nonce, b"m"), Hrhb::new(&key).with_aad(&[]).encrypt(&nonce, b"m"));
    assert_eq!(Hrb::new(&key).encrypt(&nonce, b"m"), Hrb::new(&key).with_aad(&[]).encrypt(&nonce, b"m"));
    assert_eq!(Hhbb::new(&key).encrypt(&nonce, b"m"), Hhbb::new(&key).with_aad(&[]).encrypt(&nonce, b"m"));
    assert_ne!(Hhbb::new(&key).encrypt(&nonce, b"m"), Hhbb::new(&key).with_aad(&[0]).encrypt(&nonce, b"m"));
    let sealed = Ascon::new(&[0u8; 16]).encrypt(&[1u8; 16], b"m");
    assert_eq!(sealed, Ascon::new(&[0u8; 16]).with_aad(&[]).encrypt(&[1u8; 16], b"m"));
    let mut through_trait = vec![0u8; 1 + 16];
    Ascon::new(&[0u8; 16]).seal(&[1u8; 16], &[], b"m", &mut through_trait).unwrap();
    assert_eq!(sealed, through_trait);
}
