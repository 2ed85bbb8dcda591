use byteorder::{BigEndian, ByteOrder};
use rand::Rng;
use sarkara::utils::nonce::{Counter, GenNonce, SystemRng};
use sarkara::utils::Coins;

#[test]
fn test_counter() {
    let mut output = [0; 12];
    let mut ctr = Counter::default();

    ctr.fill(&mut output);
    assert_eq!(BigEndian::read_u64(&output[4..]), 0);

    ctr.fill(&mut output);
    assert_eq!(BigEndian::read_u64(&output[4..]), 1);
}

#[test]
fn counter_writes_the_last_eight_bytes_only() {
    let mut output = [0xaa; 12];
    let mut ctr = Counter(0x0102_0304_0506_0708);
    ctr.fill(&mut output);
    assert_eq!(output, [0xaa, 0xaa, 0xaa, 0xaa, 1, 2, 3, 4, 5, 6, 7, 8]);
    assert_eq!(ctr.0, 0x0102_0304_0506_0709);
    let mut exact = [0u8; 8];
    Counter(u64::MAX - 1).fill(&mut exact);
    assert_eq!(exact, [0xff, 0xff, 0xff, 0xff, 0xff, 0xff, 0xff, 0xfe]);
}

#[test]
fn counter_gen_counts_up() {
    let mut ctr = Counter::default();
    assert_eq!(ctr.gen(8), vec![0, 0, 0, 0, 0, 0, 0, 0]);
    assert_eq!(ctr.gen(9), vec![0, 0, 0, 0, 0, 0, 0, 0, 1]);
    assert_eq!(ctr.gen(8), vec![0, 0, 0, 0, 0, 0, 0, 2]);
}

#[test]
fn system_rng_fills_any_length() {
    let mut rng = SystemRng::new().unwrap();
    assert_eq!(rng.gen(0).len(), 0);
    assert_eq!(rng.gen(33).len(), 33);
    let a = rng.gen(32);
    let b = rng.gen(32);
    assert_ne!(a, b);
    let mut buf = [0u8; 64];
    rng.fill(&mut buf);
    assert!(buf.iter().any(|&x| x != 0));
}

#[test]
fn coins_are_handed_out_in_order_once() {
    let mut coins = Coins::new((1..=10u8).collect());
    let mut first = [0u8; 3];
    coins.hand_out(&mut first);
    assert_eq!(first, [1, 2, 3]);
    let mut none = [0u8; 0];
    coins.hand_out(&mut none);
    let mut second = [0xffu8; 4];
    coins.fill_bytes(&mut second);
    assert_eq!(second, [4, 5, 6, 7]);
    // where they run out, zeros
    let mut last = [0xffu8; 5];
    coins.hand_out(&mut last);
    assert_eq!(last, [8, 9, 10, 0, 0]);
    let mut after = [0xffu8; 2];
    coins.hand_out(&mut after);
    assert_eq!(after, [0, 0]);
}

#[test]
fn coins_as_words() {
    let mut coins = Coins::new(vec![0x78, 0x56, 0x34, 0x12, 0xff, 0xff, 0xff, 0xff, 1, 2]);
    assert_eq!(coins.next_u32(), 0x1234_5678);
    assert_eq!(coins.next_u32(), 0xffff_ffff);
    assert_eq!(coins.next_u32(), 0x0000_0201);
    assert_eq!(coins.next_u32(), 0);
}
