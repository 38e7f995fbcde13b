use rust_protocol::{reverse_all_bytes, reverse_bits_in_byte};

#[test]
fn reversing_twice_gives_the_byte_back() {
    for b in 0..=255u8 {
        assert_eq!(reverse_bits_in_byte(reverse_bits_in_byte(b)), b);
    }
}

#[test]
fn reverse_mirrors_each_bit() {
    for b in 0..=255u8 {
        let r = reverse_bits_in_byte(b);
        for i in 0..8u8 {
            assert_eq!((r >> i) & 1, (b >> (7 - i)) & 1);
        }
        assert_eq!(r, b.reverse_bits());
    }
}

#[test]
fn reverse_known_bytes() {
    assert_eq!(reverse_bits_in_byte(0x00), 0x00);
    assert_eq!(reverse_bits_in_byte(0x01), 0x80);
    assert_eq!(reverse_bits_in_byte(0x80), 0x01);
    assert_eq!(reverse_bits_in_byte(0x05), 0xA0);
    assert_eq!(reverse_bits_in_byte(0x0F), 0xF0);
    assert_eq!(reverse_bits_in_byte(0x12), 0x48);
    assert_eq!(reverse_bits_in_byte(0xA5), 0xA5);
    assert_eq!(reverse_bits_in_byte(0xFF), 0xFF);
}

#[test]
fn reverse_all_keeps_length_and_order() {
    assert_eq!(reverse_all_bytes(&[]), Vec::<u8>::new());
    assert_eq!(reverse_all_bytes(&[0x01]), vec![0x80]);
    assert_eq!(
        reverse_all_bytes(&[0x05, 0x12, 0x21, 0x00, 0x25, 0x05, 0x01, 0x02, 0x03, 0x04]),
        vec![0xA0, 0x48, 0x84, 0x00, 0xA4, 0xA0, 0x80, 0x40, 0xC0, 0x20]
    );
}

#[test]
fn reversing_all_twice_gives_the_bytes_back() {
    let bytes: Vec<u8> = (0..=255u8).collect();
    assert_eq!(reverse_all_bytes(&reverse_all_bytes(&bytes)), bytes);
}
