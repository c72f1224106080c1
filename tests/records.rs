use bladerf_adsb::hex::{decode_hex, hex_digit_value, push_hex};
use bladerf_adsb::record::{parse_record, render_record};

#[test]
fn short_frame_round_trips() {
    let frame = vec![0x8Du8, 0x4C, 0xA2, 0x1B, 0x58, 0x1B, 0x32];
    let text = render_record(&frame);
    assert_eq!(parse_record(&text), Some(frame));
}

#[test]
fn long_frame_round_trips() {
    let frame: Vec<u8> = vec![0x8d, 0x48, 0x40, 0xd6, 0x20, 0x2c, 0xc3, 0x71, 0xc3, 0x2c, 0xe0, 0x57, 0x60, 0x98];
    let text = render_record(&frame);
    assert_eq!(text, "*8d4840d6202cc371c32ce0576098;\n");
    assert_eq!(parse_record(&text), Some(frame));
}

#[test]
fn malformed_records_are_rejected() {
    assert_eq!(parse_record(""), None);
    assert_eq!(parse_record("*;\n"), None);
    assert_eq!(parse_record("8d4ca21b581b32;\n"), None);
    assert_eq!(parse_record("*8d4ca21b581b32\n"), None);
    assert_eq!(parse_record("*8d4ca21b581b32;"), None);
    assert_eq!(parse_record("*8d4ca21b581b3g;\n"), None);
    assert_eq!(parse_record("*8d4ca21b581b;\n"), None);
}

#[test]
fn hex_digits_read_in_either_case() {
    assert_eq!(hex_digit_value('0'), Some(0));
    assert_eq!(hex_digit_value('9'), Some(9));
    assert_eq!(hex_digit_value('a'), Some(10));
    assert_eq!(hex_digit_value('F'), Some(15));
    assert_eq!(hex_digit_value('g'), None);
    assert_eq!(decode_hex("00ffA5"), Some(vec![0x00, 0xff, 0xa5]));
    assert_eq!(decode_hex("abc"), None);
    assert_eq!(decode_hex("zz"), None);
    assert_eq!(decode_hex(""), Some(vec![]));
}

#[test]
fn hex_appends_two_digits_per_byte() {
    let mut out = String::from("x");
    push_hex(&mut out, &[0x00, 0x0f, 0xf0, 0xff]);
    assert_eq!(out, "x000ff0ff");
}
