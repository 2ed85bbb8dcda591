use sarkara::pwhash::argon2::{
    MEMLIMIT_INTERACTIVE, MEMLIMIT_MODERATE, MEMLIMIT_SENSITIVE, OPSLIMIT_INTERACTIVE,
    OPSLIMIT_MODERATE, OPSLIMIT_SENSITIVE,
};
use sarkara::pwhash::{Argon2i, KeyDerivationFail, KeyDerive, KeyVerify};
use sarkara::utils::nonce::Counter;

fn cheap() -> Argon2i {
    let mut f = Argon2i::default();
    f.with_opslimit(1).with_memlimit(64 * 1024);
    f
}

#[test]
fn argon2i_derives_a_key_of_the_length_set() {
    let key = cheap().derive(b"password", b"somesalt").ok().unwrap();
    assert_eq!(key.len(), 16);
    assert!(key != [0u8; 16]);
    let long = cheap().with_size(40).derive(b"password", b"somesalt").ok().unwrap();
    assert_eq!(long.len(), 40);
    // the same inputs derive the same key; another salt, key or password another
    assert!(key == cheap().derive(b"password", b"somesalt").ok().unwrap());
    assert!(key != cheap().derive(b"password", b"somesalu").ok().unwrap());
    assert!(key != cheap().derive(b"passwore", b"somesalt").ok().unwrap());
    assert!(key != cheap().with_key(b"k").derive(b"password", b"somesalt").ok().unwrap());
    assert!(key != cheap().with_aad(b"x").derive(b"password", b"somesalt").ok().unwrap());
    assert!(key != cheap().with_opslimit(2).derive(b"password", b"somesalt").ok().unwrap());
}

#[test]
fn argon2i_known_answer() {
    // argon2rs's own hash for the same inputs
    let mut expected = [0u8; 16];
    argon2rs::Argon2::new(1, 1, 64, argon2rs::Variant::Argon2i).unwrap().hash(
        &mut expected,
        b"password",
        b"somesalt",
        b"key",
        b"aad",
    );
    let key = cheap().with_key(b"key").with_aad(b"aad").derive(b"password", b"somesalt");
    assert!(key.ok().unwrap() == expected);
}

#[test]
fn argon2i_failures() {
    assert!(matches!(
        cheap().derive(b"password", b"short"),
        Err(KeyDerivationFail::SaltTooShort)
    ));
    assert!(matches!(
        cheap().with_size(3).derive(b"password", b"somesalt"),
        Err(KeyDerivationFail::OutLenTooShort)
    ));
    // a short salt is told before a short output
    assert!(matches!(
        cheap().with_size(3).derive(b"password", b"short"),
        Err(KeyDerivationFail::SaltTooShort)
    ));
    match cheap().with_opslimit(0).derive(b"password", b"somesalt") {
        Err(KeyDerivationFail::ParameterError(text)) => {
            assert_eq!(text, "Argon2 requires one or more passes to be run.")
        }
        _ => panic!(),
    }
    match cheap().with_memlimit(7 * 1024).derive(b"password", b"somesalt") {
        Err(e @ KeyDerivationFail::ParameterError(_)) => {
            assert_eq!(e.description(), "Specified size of block matrix was too small.")
        }
        _ => panic!(),
    }
    assert_eq!(KeyDerivationFail::OutLenTooShort.description(), "Output length too short.");
    assert_eq!(KeyDerivationFail::OutLenTooLong.description(), "Output length too long.");
    assert_eq!(KeyDerivationFail::SaltTooShort.description(), "Salt too short.");
    assert_eq!(KeyDerivationFail::SaltTooLong.description(), "Salt too long.");
}

#[test]
fn argon2i_verify() {
    let key = cheap().derive(b"password", b"somesalt").ok().unwrap();
    assert!(cheap().verify(b"password", b"somesalt", &key).ok().unwrap());
    assert!(!cheap().verify(b"passwore", b"somesalt", &key).ok().unwrap());
    assert!(!cheap().verify(b"password", b"somesalt", &key[..15]).ok().unwrap());
    assert!(matches!(
        cheap().verify(b"password", b"short", &key),
        Err(KeyDerivationFail::SaltTooShort)
    ));
}

#[test]
fn argon2i_pwhash_draws_the_salt() {
    let mut counter = Counter(3);
    let key = cheap().pwhash(&mut counter, b"password").ok().unwrap();
    assert!(key == cheap().derive(b"password", &[0, 0, 0, 0, 0, 0, 0, 3]).ok().unwrap());
    assert_eq!(counter.0, 4);
}

#[test]
fn argon2i_limits() {
    assert_eq!((OPSLIMIT_INTERACTIVE, MEMLIMIT_INTERACTIVE), (4, 33554432));
    assert_eq!((OPSLIMIT_MODERATE, MEMLIMIT_MODERATE), (6, 134217728));
    assert_eq!((OPSLIMIT_SENSITIVE, MEMLIMIT_SENSITIVE), (8, 536870912));
}
