use biliup_app::encode_hex;

#[test]
fn test_hex() {
    let data = [0x41u16, 0x42u16];
    assert_eq!(encode_hex(&data), "4142");
}

#[test]
fn hex_of_empty_input_is_empty() {
    let data: [u16; 0] = [];
    assert_eq!(encode_hex(&data), "");
}

#[test]
fn hex_of_byte_values_is_two_digits_each() {
    let data = [0x10u16, 0xffu16, 0xa5u16, 0x3cu16];
    let s = encode_hex(&data);
    assert_eq!(s, "10ffa53c");
    assert_eq!(s.len(), 2 * data.len());
}

#[test]
fn hex_pads_small_words_to_two_digits() {
    assert_eq!(encode_hex(&[0x05u16]), "05");
    assert_eq!(encode_hex(&[0x0u16]), "00");
    assert_eq!(encode_hex(&[0x05u16, 0x0u16, 0x7u16]), "050007");
    assert_eq!(encode_hex(&[0x0au16, 0xffu16, 0x00u16]), "0aff00");
}

#[test]
fn hex_of_every_byte_value_is_two_digits() {
    let data: Vec<u16> = (0u16..=0xff).collect();
    let s = encode_hex(&data);
    assert_eq!(s.len(), 2 * data.len());
    for (i, w) in data.iter().enumerate() {
        assert_eq!(u16::from_str_radix(&s[2 * i..2 * i + 2], 16), Ok(*w));
    }
    assert!(s.chars().all(|c| c.is_ascii_digit() || ('a'..='f').contains(&c)));
}

#[test]
fn hex_of_wide_words_has_more_digits() {
    assert_eq!(encode_hex(&[0x100u16]), "100");
    assert_eq!(encode_hex(&[0xabcdu16, 0x1234u16]), "abcd1234");
    assert_eq!(encode_hex(&[0xffffu16]), "ffff");
    assert_eq!(encode_hex(&[0xfffu16]), "fff");
    assert_eq!(encode_hex(&[0x100u16, 0x01u16]), "10001");
    assert!(encode_hex(&[0x100u16, 0x01u16]).len() > 4);
}
