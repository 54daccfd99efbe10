use hexdump::highlight::{format_token, wants_highlight};

#[test]
fn control_and_whitespace_bytes_stand_out() {
    for byte in [0x00u8, 0x07, 0x09, 0x0a, 0x0c, 0x0d, 0x1b, 0x1f, 0x20, 0x7f] {
        assert!(wants_highlight(byte, true), "byte {:#04x}", byte);
    }
}

#[test]
fn other_bytes_do_not_stand_out() {
    for byte in [0x21u8, 0x30, 0x41, 0x7e, 0x80, 0xa0, 0xff] {
        assert!(!wants_highlight(byte, true), "byte {:#04x}", byte);
    }
}

#[test]
fn standing_out_agrees_with_the_standard_classes() {
    for byte in 0..=255u8 {
        assert_eq!(
            wants_highlight(byte, true),
            byte.is_ascii_control() || byte.is_ascii_whitespace(),
            "byte {:#04x}",
            byte
        );
    }
}

#[test]
fn nothing_is_highlighted_with_colour_off() {
    for byte in 0..=255u8 {
        assert!(!wants_highlight(byte, false));
        assert_eq!(format_token(byte, false), format!("{:02x} ", byte));
    }
}

#[test]
fn bytes_that_do_not_stand_out_have_plain_tokens_with_colour_on() {
    for byte in 0..=255u8 {
        if !(byte.is_ascii_control() || byte.is_ascii_whitespace()) {
            assert_eq!(format_token(byte, true), format!("{:02x} ", byte));
        }
    }
}

#[test]
fn a_highlighted_token_is_the_plain_token_with_or_without_markup() {
    for byte in [0x00u8, 0x0a, 0x20, 0x7f] {
        let plain = format!("{:02x} ", byte);
        let red = format!("\u{1b}[31m{:02x} \u{1b}[0m", byte);
        let token = format_token(byte, true);
        assert!(token == plain || token == red, "token {:?}", token);
    }
}
