use sarkara::utils::SecBytes;

#[test]
fn secbytes_read_what_was_put_in() {
    let pass = [1; 8];
    let secbytes = SecBytes::new(&pass).unwrap();
    secbytes.map_read(|bs| assert_eq!(bs, pass));
    assert_eq!(secbytes.map_read(|bs| bs.len()), 8);
    assert_eq!(secbytes.map_read(|bs| bs.to_vec()), vec![1; 8]);
}

#[test]
fn secbytes_write_and_read_back() {
    let pass = [1; 8];
    let mut secbytes = SecBytes::new(&pass).unwrap();
    let returned = secbytes.map_write(|bs| {
        bs[0] = 0;
        bs.len()
    });
    assert_eq!(returned, 8);
    let bs = secbytes.map_read(|bs| {
        let mut pass = [0; 8];
        pass.clone_from_slice(bs);
        pass
    });
    assert_eq!(bs, [0, 1, 1, 1, 1, 1, 1, 1]);
    secbytes.map_write(|bs| bs.copy_from_slice(&[9; 8]));
    assert_eq!(secbytes.map_read(|bs| bs.to_vec()), vec![9; 8]);
}

#[test]
fn secbytes_of_many_bytes() {
    let data: Vec<u8> = (0..5000u32).map(|i| (i % 251) as u8).collect();
    let secbytes = SecBytes::new(&data).unwrap();
    assert_eq!(secbytes.map_read(|bs| bs.to_vec()), data);
}

#[test]
fn secbytes_are_shown_as_asterisks() {
    assert_eq!(SecBytes::new(&[1; 8]).unwrap().masked(), "********");
}
