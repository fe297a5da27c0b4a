use microbit_core::text::{push_decimal, push_text};

fn decimal(n: i32) -> Vec<u8> {
    let mut out = Vec::new();
    push_decimal(&mut out, n);
    out
}

#[test]
fn decimal_of_zero() {
    assert_eq!(decimal(0), b"0".to_vec());
}

#[test]
fn decimal_of_single_digits() {
    for n in 0..10 {
        assert_eq!(decimal(n), vec![b'0' + n as u8]);
    }
}

#[test]
fn decimal_of_powers_of_ten() {
    assert_eq!(decimal(10), b"10".to_vec());
    assert_eq!(decimal(100), b"100".to_vec());
    assert_eq!(decimal(1_000_000_000), b"1000000000".to_vec());
}

#[test]
fn decimal_of_negative_numbers() {
    assert_eq!(decimal(-1), b"-1".to_vec());
    assert_eq!(decimal(-120), b"-120".to_vec());
    assert_eq!(decimal(-2147483648), b"-2147483648".to_vec());
}

#[test]
fn decimal_of_the_largest_number() {
    assert_eq!(decimal(2147483647), b"2147483647".to_vec());
}

#[test]
fn decimal_is_appended() {
    let mut out = b"x ".to_vec();
    push_decimal(&mut out, -305);
    assert_eq!(out, b"x -305".to_vec());
}

#[test]
fn text_is_appended() {
    let mut out = b"ab".to_vec();
    push_text(&mut out, "cd\r\n");
    assert_eq!(out, b"abcd\r\n".to_vec());
    push_text(&mut out, "");
    assert_eq!(out, b"abcd\r\n".to_vec());
}

#[test]
fn text_beyond_ascii_is_appended_as_its_bytes() {
    let mut out = Vec::new();
    push_text(&mut out, "\u{e9}");
    assert_eq!(out, vec![0xc3, 0xa9]);
}
