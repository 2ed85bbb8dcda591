use sarkara::aead::{AeadCipher, General, NorxMRS};
use sarkara::auth::HMAC;
use sarkara::hash::Blake2b;
use sarkara::kex::kyber::Kyber;
use sarkara::kex::KeyExchange;
use sarkara::sealedbox::{Opening, SealedBox, Sealing};
use sarkara::stream::HC256;
use sarkara::utils::nonce::{GenNonce, SystemRng};
use sarkara::{Error, Packing};

type Hhbb = General<HC256, HMAC<Blake2b>, Blake2b>;

fn test_sealedbox<KEX: KeyExchange, AE: AeadCipher>() {
    let mut rng = SystemRng::new().unwrap();
    let (bob_priv, bob_pub) = KEX::keypair(&mut rng);

    let (alice_msg, alice_enc) = SealedBox::<KEX, AE>::send(&mut rng, &bob_pub);
    let bob_dec = SealedBox::<KEX, AE>::recv(&bob_priv, &alice_msg);

    let nonce = rng.gen(AE::NONCE_LENGTH);
    let aad_length = rng.gen(1)[0] as usize % 34;
    let aad = rng.gen(aad_length);
    let pt = rng.gen(32);
    let mut ct = vec![0u8; pt.len() + AE::TAG_LENGTH];
    let mut ot = vec![0u8; pt.len()];

    alice_enc.seal(&nonce, &aad, &pt, &mut ct).unwrap();
    bob_dec.open(&nonce, &aad, &ct, &mut ot).unwrap();

    assert_eq!(pt, ot);
}

#[test]
fn test_kyber_norx() {
    test_sealedbox::<Kyber, NorxMRS>();
}

#[test]
fn test_kyber_general() {
    test_sealedbox::<Kyber, Hhbb>();
}

#[test]
fn sealed_box_in_one_piece() {
    let mut rng = SystemRng::new().unwrap();
    let (sk, pk) = Kyber::keypair(&mut rng);
    let nonce = [0u8; 32];
    let data = b"for the holder of the private key";

    let sealed = SealedBox::<Kyber, Hhbb>::seal(&mut rng, &pk, &nonce, data).unwrap();
    assert_eq!(sealed.len(), 1184 + data.len() + 64);
    assert_eq!(SealedBox::<Kyber, Hhbb>::open(&sk, &nonce, &sealed).unwrap(), data);

    // the front of the box is the exchange's message, and it is the associated data
    let message = <Kyber as KeyExchange>::Message::from_bytes(&sealed[..1184]);
    let opening = SealedBox::<Kyber, Hhbb>::recv(&sk, &message);
    let mut plain = vec![0u8; data.len()];
    opening.open(&nonce, &sealed[..1184], &sealed[1184..], &mut plain).unwrap();
    assert_eq!(plain, data);
    assert!(matches!(
        opening.open(&nonce, &[], &sealed[1184..], &mut plain),
        Err(Error::VerificationFailed)
    ));

    // two boxes for the same data differ: each has its own exchange
    let again = SealedBox::<Kyber, Hhbb>::seal(&mut rng, &pk, &nonce, data).unwrap();
    assert_ne!(again, sealed);

    assert!(matches!(
        SealedBox::<Kyber, Hhbb>::seal(&mut rng, &pk, &nonce[1..], data),
        Err(Error::Length)
    ));
    assert!(matches!(
        SealedBox::<Kyber, Hhbb>::open(&sk, &nonce[1..], &sealed),
        Err(Error::Length)
    ));
    assert!(matches!(
        SealedBox::<Kyber, Hhbb>::open(&sk, &nonce, &sealed[..1184 + 63]),
        Err(Error::Length)
    ));
    assert!(matches!(
        SealedBox::<Kyber, Hhbb>::open(&sk, &nonce, &sealed[..1184 + 64]),
        Err(Error::VerificationFailed)
    ));
    for at in [0, 1183, 1184, sealed.len() - 1] {
        let mut forged = sealed.clone();
        forged[at] ^= 1;
        assert!(matches!(
            SealedBox::<Kyber, Hhbb>::open(&sk, &nonce, &forged),
            Err(Error::VerificationFailed)
        ));
    }
    let (other, _) = Kyber::keypair(&mut rng);
    assert!(matches!(
        SealedBox::<Kyber, Hhbb>::open(&other, &nonce, &sealed),
        Err(Error::VerificationFailed)
    ));
}

#[test]
fn sides_under_a_given_secret() {
    let secret = vec![7u8; 32];
    let sealing = Sealing::<Hhbb>::under(secret.clone());
    let opening = Opening::<Hhbb>::under(secret.clone());
    let nonce = [1u8; 32];
    let mut ct = vec![0u8; 5 + 64];
    sealing.seal(&nonce, b"aad", b"hello", &mut ct).unwrap();
    // the sides are the cipher under the secret
    let mut expected = vec![0u8; 5 + 64];
    Hhbb::new(&secret).seal(&nonce, b"aad", b"hello", &mut expected).unwrap();
    assert_eq!(ct, expected);
    let mut pt = vec![0u8; 5];
    opening.open(&nonce, b"aad", &ct, &mut pt).unwrap();
    assert_eq!(pt, b"hello");
    assert!(matches!(sealing.seal(&nonce, b"aad", b"hello", &mut pt), Err(Error::Length)));
    assert!(matches!(opening.open(&nonce, b"aad", &ct, &mut ct.clone()), Err(Error::Length)));

    // a box under a given exchange: the message, then the data sealed with the
    // message as associated data
    let message = vec![9u8; 1184];
    let boxed = SealedBox::<Kyber, Hhbb>::seal_under(&sealing, &message, &nonce, b"hello").unwrap();
    assert_eq!(&boxed[..1184], &message[..]);
    let mut sealed = vec![0u8; 5 + 64];
    Hhbb::new(&secret).seal(&nonce, &message, b"hello", &mut sealed).unwrap();
    assert_eq!(&boxed[1184..], &sealed[..]);
    assert!(matches!(
        SealedBox::<Kyber, Hhbb>::seal_under(&sealing, &message, &nonce[1..], b"hello"),
        Err(Error::Length)
    ));
}
