use xeno::error::XenoError;
use xeno::text::{join, push_decimal, push_int};

fn decimal(n: u64) -> String {
    let mut out = String::new();
    push_decimal(&mut out, n);
    out
}

fn signed(i: i64) -> String {
    let mut out = String::new();
    push_int(&mut out, i);
    out
}

#[test]
fn decimal_text_of_unsigned_numbers() {
    assert_eq!(decimal(0), "0");
    assert_eq!(decimal(9), "9");
    assert_eq!(decimal(10), "10");
    assert_eq!(decimal(1234567890), "1234567890");
    assert_eq!(decimal(u64::MAX), "18446744073709551615");
}

#[test]
fn decimal_text_of_signed_numbers() {
    assert_eq!(signed(0), "0");
    assert_eq!(signed(7), "7");
    assert_eq!(signed(-1), "-1");
    assert_eq!(signed(-120), "-120");
    assert_eq!(signed(i64::MAX), "9223372036854775807");
    assert_eq!(signed(i64::MIN), "-9223372036854775808");
}

#[test]
fn numbers_are_appended() {
    let mut out = String::from("n = ");
    push_decimal(&mut out, 405);
    out.push(' ');
    push_int(&mut out, -3);
    assert_eq!(out, "n = 405 -3");
}

#[test]
fn join_puts_head_before_tail() {
    assert_eq!(join("ab", "cd"), "abcd");
    assert_eq!(join("", "x"), "x");
    assert_eq!(join("x", ""), "x");
}

#[test]
fn error_keeps_its_message() {
    assert_eq!(XenoError::new("boom").message, "boom");
    assert_eq!(XenoError::new(String::from("bang")).message, "bang");
}

#[test]
fn error_text_has_the_prefix() {
    assert_eq!(XenoError::new("boom").to_text(), "Error: boom");
    assert_eq!(XenoError::new("").to_text(), "Error: ");
}
