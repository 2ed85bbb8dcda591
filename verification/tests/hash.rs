use sarkara::hash::Hash as _;
use sarkara::hash::{Blake2b, GenericHash};

#[test]
fn blake2b_of_nothing() {
    assert_eq!(
        Blake2b::default().hash(&[]),
        &[
            120, 106, 2, 247, 66, 1, 89, 3, 198, 198, 253, 133, 37, 82, 210, 114, 145, 47, 71, 64,
            225, 88, 71, 97, 138, 134, 226, 23, 247, 31, 84, 25, 210, 94, 16, 49, 175, 238, 88, 83,
            19, 137, 100, 68, 147, 78, 176, 75, 144, 58, 104, 91, 20, 72, 183, 85, 213, 111, 112,
            26, 254, 155, 226, 206
        ][..]
    );
}

#[test]
fn blake2b_with_size_and_key() {
    assert_eq!(
        Blake2b::default().with_size(16).with_key(&[5; 16]).hash(&[]),
        &[148, 148, 166, 38, 121, 23, 19, 81, 108, 248, 28, 149, 40, 170, 25, 209]
    );
}

#[test]
fn blake2b_digest_length() {
    assert_eq!(Blake2b::digest_length(), 64);
    assert_eq!(<Blake2b as sarkara::hash::Hash>::DIGEST_LENGTH, 64);
    assert_eq!(Blake2b::default().hash(b"abc").len(), 64);
    for size in [1usize, 7, 32, 64] {
        assert_eq!(Blake2b::default().with_size(size).hash(b"abc").len(), size);
    }
}

#[test]
fn blake2b_is_a_function_of_size_key_and_message() {
    let mut a = Blake2b::default();
    a.with_size(32).with_key(b"key");
    let b = a.clone();
    assert_eq!(a.hash(b"message"), b.hash(b"message"));
    assert_ne!(a.hash(b"message"), a.hash(b"messagf"));
    let mut c = Blake2b::default();
    c.with_size(32).with_key(b"kez");
    assert_ne!(a.hash(b"message"), c.hash(b"message"));
    let mut d = Blake2b::default();
    d.with_key(b"key").with_size(32);
    assert_eq!(a.hash(b"message"), d.hash(b"message"));
}

#[test]
fn blake2b_hash_is_not_its_input() {
    let input = [7u8; 64];
    assert_ne!(Blake2b::default().hash(&input), input.to_vec());
}
