use minotari_multisig::hex::commitment_from_hex;
use tari_utilities::hex::to_hex;

fn bytes() -> [u8; 32] {
    let mut bytes = [0u8; 32];
    for (i, byte) in bytes.iter_mut().enumerate() {
        *byte = 0xff - 7 * i as u8;
    }
    bytes
}

fn words(text: &str) -> String {
    match commitment_from_hex(text) {
        Ok(_) => panic!("the text is no commitment"),
        Err(words) => words,
    }
}

#[test]
fn a_written_commitment_is_read_back() {
    assert_eq!(commitment_from_hex(&to_hex(&bytes())), Ok(bytes()));
}

#[test]
fn white_space_the_mark_and_upper_case_make_no_difference() {
    let text = to_hex(&bytes());
    assert_eq!(commitment_from_hex(&format!(" \t\r\n{}\u{b}\u{c} ", text)), Ok(bytes()));
    assert_eq!(commitment_from_hex(&format!("0x{}", text)), Ok(bytes()));
    assert_eq!(commitment_from_hex(&text.to_uppercase()), Ok(bytes()));
}

#[test]
fn a_plus_sign_stands_for_the_high_half() {
    let text = format!("+7{}", "00".repeat(31));
    let mut expected = [0u8; 32];
    expected[0] = 7;
    assert_eq!(commitment_from_hex(&text), Ok(expected));
    assert_eq!(words(&format!("-7{}", "00".repeat(31))), "Only hexadecimal characters (0-9,a-f) are permitted");
}

#[test]
fn the_first_thing_that_is_wrong_decides() {
    assert_eq!(words("abc"), "Hex string lengths must be a multiple of 2");
    // Two bytes for one character.
    assert_eq!(words("ag\u{e9}"), "Invalid hex representation for the target type");
    assert_eq!(words("a\u{e9}"), "Hex string lengths must be a multiple of 2");
    // White space that is not ASCII is trimmed for the length, and refused after that.
    assert_eq!(words("\u{3000}abc"), "Hex string lengths must be a multiple of 2");
    assert_eq!(words("\u{3000}\u{a0}ab\u{2028}"), "Invalid hex representation for the target type");
    assert_eq!(words("ag"), "Only hexadecimal characters (0-9,a-f) are permitted");
    assert_eq!(words("a b "), "Hex string lengths must be a multiple of 2");
    assert_eq!(words("abcd"), "Invalid hex representation for the target type");
    assert_eq!(words(""), "Invalid hex representation for the target type");
    assert_eq!(words("0x"), "Invalid hex representation for the target type");
}
