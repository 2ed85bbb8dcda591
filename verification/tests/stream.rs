use sarkara::stream::{StreamCipher, HC128, HC256, Rabbit};

#[test]
fn hc256_keystream_of_zero_key_and_nonce() {
    let output = HC256::new(&[0; 32]).process(&[0; 32], &[0; 32]);
    assert_eq!(
        output,
        [
            0x5b, 0x07, 0x89, 0x85, 0xd8, 0xf6, 0xf3, 0x0d, 0x42, 0xc5, 0xc0, 0x2f, 0xa6, 0xb6,
            0x79, 0x51, 0x53, 0xf0, 0x65, 0x34, 0x80, 0x1f, 0x89, 0xf2, 0x4e, 0x74, 0x24, 0x8b,
            0x72, 0x0b, 0x48, 0x18
        ]
    );
}

#[test]
fn hc256_keystream_depends_on_nonce_and_key() {
    let mut iv = [0; 32];
    iv[0] = 1;
    let output = HC256::new(&[0; 32]).process(&iv, &[0; 32]);
    assert_eq!(
        output,
        [
            0xaf, 0xe2, 0xa2, 0xbf, 0x4f, 0x17, 0xce, 0xe9, 0xfe, 0xc2, 0x05, 0x8b, 0xd1, 0xb1,
            0x8b, 0xb1, 0x5f, 0xc0, 0x42, 0xee, 0x71, 0x2b, 0x31, 0x01, 0xdd, 0x50, 0x1f, 0xc6,
            0x0b, 0x08, 0x2a, 0x50
        ]
    );
    let mut key = [0; 32];
    key[0] = 0x55;
    let output = HC256::new(&key).process(&[0; 32], &[0; 32]);
    assert_eq!(
        output,
        [
            0x1c, 0x40, 0x4a, 0xfe, 0x4f, 0xe2, 0x5f, 0xed, 0x95, 0x8f, 0x9a, 0xd1, 0xae, 0x36,
            0xc0, 0x6f, 0x88, 0xa6, 0x5a, 0x3c, 0xc0, 0xab, 0xe2, 0x23, 0xae, 0xb3, 0x90, 0x2f,
            0x42, 0x0e, 0xd3, 0xa8
        ]
    );
}

#[test]
fn hc256_process_is_xor_with_the_keystream() {
    let cipher = HC256::new(&[3; 32]);
    let stream = cipher.process(&[4; 32], &[0; 77]);
    let data: Vec<u8> = (0..77u8).collect();
    let out = cipher.process(&[4; 32], &data);
    for i in 0..77 {
        assert_eq!(out[i], data[i] ^ stream[i]);
    }
    assert_eq!(cipher.process(&[4; 32], &out), data);
    assert_eq!(cipher.process(&[4; 32], &[]), Vec::<u8>::new());
}

#[test]
fn hc128_keystream() {
    let mut key = [0; 16];
    key[0] = 0x80;
    let output = HC128::new(&key).process(&[0; 16], &[0; 32]);
    assert_eq!(
        output,
        [
            0x37, 0x86, 0x02, 0xB9, 0x8F, 0x32, 0xA7, 0x48, 0x47, 0x51, 0x56, 0x54, 0xAE, 0x0D,
            0xE7, 0xED, 0x8F, 0x72, 0xBC, 0x34, 0x77, 0x6A, 0x06, 0x51, 0x03, 0xE5, 0x15, 0x95,
            0x52, 0x1F, 0xFE, 0x47
        ]
    );
    let data = [8; 64];
    let cipher = HC128::new(&[1; 16]);
    let ciphertext = cipher.process(&[2; 16], &data);
    assert_ne!(ciphertext, data.to_vec());
    assert_eq!(cipher.process(&[2; 16], &ciphertext), &data[..]);
}

#[test]
fn rabbit_process_undoes_itself() {
    let data = [8; 64];
    let cipher = Rabbit::new(&[1; 16]);
    let ciphertext = cipher.process(&[2; 8], &data);
    assert_eq!(ciphertext.len(), 64);
    assert_ne!(ciphertext, data.to_vec());
    assert_eq!(cipher.process(&[2; 8], &ciphertext), &data[..]);
    assert_ne!(cipher.process(&[3; 8], &data), ciphertext);
}

#[test]
fn rabbit_keystream_of_zero_key() {
    // The first block of the cipher's output for the all-zero key and nonce.
    let out = Rabbit::new(&[0; 16]).process(&[0; 8], &[0; 16]);
    assert_eq!(
        out,
        [
            0xED, 0xB7, 0x05, 0x67, 0x37, 0x5D, 0xCD, 0x7C, 0xD8, 0x95, 0x54, 0xF8, 0x5E, 0x27,
            0xA7, 0xC6
        ]
    );
}

#[test]
fn stream_lengths() {
    assert_eq!(HC256::KEY_LENGTH, 32);
    assert_eq!(HC256::NONCE_LENGTH, 32);
    assert_eq!(HC128::KEY_LENGTH, 16);
    assert_eq!(HC128::NONCE_LENGTH, 16);
    assert_eq!(Rabbit::KEY_LENGTH, 16);
    assert_eq!(Rabbit::NONCE_LENGTH, 8);
}
