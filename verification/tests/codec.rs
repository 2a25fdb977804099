use universal_nft::codec::{
    append, read_i64, read_le, read_text, read_u16, read_u32, read_u64, same32, same8, take,
    take32, write_i64, write_le, write_text,
};

#[test]
fn read_le_takes_least_significant_byte_first() {
    let bytes = [0xAAu8, 0x01, 0x02, 0x03, 0x04, 0x05, 0x06, 0x07, 0x08, 0xBB];
    assert_eq!(read_le(&bytes, 1, 8), 0x0807_0605_0403_0201);
    assert_eq!(read_le(&bytes, 1, 2), 0x0201);
    assert_eq!(read_le(&bytes, 1, 0), 0);
    assert_eq!(read_u64(&bytes, 1), 0x0807_0605_0403_0201);
    assert_eq!(read_u32(&bytes, 2), 0x0504_0302);
    assert_eq!(read_u16(&bytes, 8), 0xBB08);
}

#[test]
fn write_le_writes_the_lowest_digits() {
    let mut out = vec![9u8];
    write_le(&mut out, 0x0102_0304_0506_0708, 8);
    assert_eq!(out, vec![9, 8, 7, 6, 5, 4, 3, 2, 1]);
    let mut short = Vec::new();
    write_le(&mut short, 0x0102_0304, 2);
    assert_eq!(short, vec![4, 3]);
    let mut none = vec![1u8];
    write_le(&mut none, 77, 0);
    assert_eq!(none, vec![1]);
}

#[test]
fn write_le_agrees_with_std() {
    for value in [0u64, 1, 255, 256, 65_535, 65_536, u64::MAX, 0x8000_0000_0000_0000] {
        let mut out = Vec::new();
        write_le(&mut out, value, 8);
        assert_eq!(out, value.to_le_bytes().to_vec());
        assert_eq!(read_u64(&out, 0), value);
    }
}

#[test]
fn signed_numbers_are_twos_complement() {
    for value in [0i64, 1, -1, -2, i64::MAX, i64::MIN, 1_700_000_000] {
        let mut out = Vec::new();
        write_i64(&mut out, value);
        assert_eq!(out, value.to_le_bytes().to_vec());
        assert_eq!(read_i64(&out, 0), value);
    }
    let mut out = Vec::new();
    write_i64(&mut out, -2);
    assert_eq!(out, vec![0xFE, 0xFF, 0xFF, 0xFF, 0xFF, 0xFF, 0xFF, 0xFF]);
}

#[test]
fn text_field_is_length_then_utf8() {
    let mut out = vec![7u8];
    assert!(write_text(&mut out, "h\u{e9}!"));
    assert_eq!(out, vec![7, 4, 0, 0, 0, b'h', 0xC3, 0xA9, b'!']);
    assert_eq!(read_text(&out, 1), Some(("h\u{e9}!".to_string(), 9)));
}

#[test]
fn empty_text_is_four_zero_bytes() {
    let mut out = Vec::new();
    assert!(write_text(&mut out, ""));
    assert_eq!(out, vec![0, 0, 0, 0]);
    assert_eq!(read_text(&out, 0), Some((String::new(), 4)));
}

#[test]
fn read_text_stops_where_the_field_ends() {
    let bytes = [2u8, 0, 0, 0, b'o', b'k', 0xFF, 0xFF];
    assert_eq!(read_text(&bytes, 0), Some(("ok".to_string(), 6)));
}

#[test]
fn read_text_refuses_what_is_cut_short() {
    assert_eq!(read_text(&[3u8, 0, 0, 0, b'a', b'b'], 0), None);
    assert_eq!(read_text(&[3u8, 0, 0], 0), None);
    assert_eq!(read_text(&[], 0), None);
    assert_eq!(read_text(&[0xFFu8, 0xFF, 0xFF, 0xFF, b'a'], 0), None);
}

#[test]
fn read_text_refuses_malformed_utf8() {
    assert_eq!(read_text(&[1u8, 0, 0, 0, 0xFF], 0), None);
    assert_eq!(read_text(&[2u8, 0, 0, 0, 0xC3, b'a'], 0), None);
    assert_eq!(read_text(&[2u8, 0, 0, 0, 0xC3, 0xA9], 0), Some(("\u{e9}".to_string(), 6)));
}

#[test]
fn take_and_append_copy_bytes() {
    let bytes: Vec<u8> = (0u8..40).collect();
    assert_eq!(take(&bytes, 3, 4), vec![3, 4, 5, 6]);
    assert_eq!(take(&bytes, 40, 0), Vec::<u8>::new());
    let mut expected = [0u8; 32];
    for (i, byte) in expected.iter_mut().enumerate() {
        *byte = (i + 8) as u8;
    }
    assert_eq!(take32(&bytes, 8), expected);
    let mut out = vec![1u8, 2];
    append(&mut out, &[3, 4, 5]);
    assert_eq!(out, vec![1, 2, 3, 4, 5]);
}

#[test]
fn same_compares_every_byte() {
    let a = [5u8; 32];
    let mut b = [5u8; 32];
    assert!(same32(&a, &b));
    b[31] = 6;
    assert!(!same32(&a, &b));
    b[31] = 5;
    b[0] = 4;
    assert!(!same32(&a, &b));
    let tag = [1u8, 2, 3, 4, 5, 6, 7, 8];
    assert!(same8(&[1, 2, 3, 4, 5, 6, 7, 8], &tag));
    assert!(!same8(&[1, 2, 3, 4, 5, 6, 7, 9], &tag));
    assert!(!same8(&[1, 2, 3, 4, 5, 6, 7], &tag));
    assert!(!same8(&[1, 2, 3, 4, 5, 6, 7, 8, 9], &tag));
}
