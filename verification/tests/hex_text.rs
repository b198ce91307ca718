use pin_manager::hex::to_hex;

#[test]
fn hex_of_empty_input_is_empty() {
    assert_eq!(to_hex(&[]), "");
}

#[test]
fn hex_is_lowercase_two_digits_per_byte() {
    assert_eq!(to_hex(&[0x00, 0x0a, 0x14, 0x1e, 0xff]), "000a141eff");
    assert_eq!(to_hex(&[0xde, 0xad, 0xbe, 0xef]), "deadbeef");
}
