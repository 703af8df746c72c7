use moon_wallet::hex::to_hex;

#[test]
fn hex_of_no_bytes_is_empty() {
    assert_eq!(to_hex(&[]), "");
}

#[test]
fn hex_is_lower_case_two_digits_per_byte() {
    assert_eq!(to_hex(&[0x00, 0xab, 0xff, 0x10, 0x09]), "00abff1009");
}

#[test]
fn hex_of_text_bytes() {
    assert_eq!(to_hex(b"Hi"), "4869");
}
