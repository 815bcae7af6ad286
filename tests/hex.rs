use atmosensor::hex::{
    byte_to_hex_str, bytes_to_hex_str, hex_char_to_val, hex_str_to_bytes, is_hex_char,
    nibble_to_hex_char,
};

#[test]
fn hex_characters() {
    for ch in "0123456789abcdefABCDEF".chars() {
        assert!(is_hex_char(ch));
    }
    for ch in ['g', 'G', ' ', 'x', '/', ':', '@', '`'] {
        assert!(!is_hex_char(ch));
    }
}

#[test]
fn hex_values() {
    assert_eq!(hex_char_to_val('0'), 0);
    assert_eq!(hex_char_to_val('9'), 9);
    assert_eq!(hex_char_to_val('a'), 10);
    assert_eq!(hex_char_to_val('F'), 15);
}

#[test]
fn hex_string_to_bytes() {
    let s: Vec<char> = "01aAfF00".chars().collect();
    assert_eq!(hex_str_to_bytes(&s), Some(vec![0x01, 0xAA, 0xFF, 0x00]));
    let odd: Vec<char> = "abc".chars().collect();
    assert_eq!(hex_str_to_bytes(&odd), None);
    assert_eq!(hex_str_to_bytes(&[]), Some(vec![]));
}

#[test]
fn bytes_to_hex_text() {
    assert_eq!(nibble_to_hex_char(0), b'0');
    assert_eq!(nibble_to_hex_char(11), b'b');
    assert_eq!(byte_to_hex_str(0x3C), [b'3', b'c']);
    assert_eq!(bytes_to_hex_str(&[0xDE, 0x01, 0x0A]), "de010a");
    assert_eq!(bytes_to_hex_str(&[]), "");
}
