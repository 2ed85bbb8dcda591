use sarkara::utils::{Bytes, Counter};

#[test]
fn bytes_eq_test() {
    let x = Bytes::new(&[3; 16]);
    let y = Bytes::new(&[2; 16]);
    let z = [3; 16];

    assert!(x != y);
    assert!(x == z);
    assert!(x == Bytes::new(&z));
    assert!(x != Bytes::new(&y));
}

#[test]
fn bytes_compare_with_slices_of_other_lengths() {
    let x = Bytes::new(&[3; 16]);
    assert!(x != [3u8; 15]);
    assert!(x != [3u8; 17]);
    assert!(x == [3u8; 16][..]);
    assert!(x != [3u8; 15][..]);
    assert!(Bytes::new(&[]) == Bytes::new(&[]));
}

#[test]
fn bytes_differ_in_one_place() {
    for i in 0..16 {
        let mut z = [7u8; 16];
        z[i] ^= 0x80;
        assert!(Bytes::new(&[7; 16]) != z);
    }
}

#[test]
fn bytes_clear_leaves_zeros_of_the_same_length() {
    let mut x = Bytes::new(&[9; 24]);
    x.clear();
    assert_eq!(x.len(), 24);
    assert_eq!(x.as_slice(), &[0u8; 24][..]);
}

#[test]
fn bytes_new_copies_and_derefs() {
    let x = Bytes::new(&[1, 2, 3]);
    assert_eq!(&x[..], &[1, 2, 3]);
    assert_eq!(x.clone().as_slice(), &[1, 2, 3]);
    assert_eq!(Bytes::from(vec![4u8, 5]).as_slice(), &[4, 5]);
}

#[test]
fn bytes_random_has_the_length_asked_for() {
    let mut counter = Counter::default();
    let x = Bytes::random(&mut counter, 12);
    assert_eq!(x.len(), 12);
    assert_eq!(x.as_slice(), &[0u8; 12][..]);
    let y = Bytes::random(&mut counter, 8);
    assert_eq!(y.as_slice(), &[0, 0, 0, 0, 0, 0, 0, 1]);
}

#[test]
fn bytes_are_shown_as_asterisks() {
    assert_eq!(Bytes::new(&[1, 2, 3]).masked(), "***");
    assert_eq!(Bytes::new(&[]).masked(), "");
    assert_eq!(Bytes::new(&[0; 40]).masked().len(), 40);
}
