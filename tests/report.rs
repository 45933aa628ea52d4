use stm32f3_common::report::{uart_write_hex, uart_write_hex16, uart_write_hex32, uart_write_str};

fn text(v: &[char]) -> String {
    v.iter().collect()
}

#[test]
fn line_feed_becomes_crlf() {
    let mut out = Vec::new();
    uart_write_str(&mut out, "PASS\nFAIL\n");
    assert_eq!(text(&out), "PASS\r\nFAIL\r\n");
}

#[test]
fn text_without_line_feed_is_unchanged() {
    let mut out = vec!['>'];
    uart_write_str(&mut out, "Timer2 expired: PASS");
    assert_eq!(text(&out), ">Timer2 expired: PASS");
}

#[test]
fn empty_text_writes_nothing() {
    let mut out = vec!['x'];
    uart_write_str(&mut out, "");
    assert_eq!(out, vec!['x']);
}

#[test]
fn existing_carriage_return_is_kept() {
    let mut out = Vec::new();
    uart_write_str(&mut out, "a\r\nb");
    assert_eq!(text(&out), "a\r\r\nb");
}

#[test]
fn byte_as_two_upper_case_digits() {
    let mut out = Vec::new();
    uart_write_hex(&mut out, 0xAB);
    uart_write_hex(&mut out, 0x0F);
    uart_write_hex(&mut out, 0x00);
    uart_write_hex(&mut out, 0xFF);
    assert_eq!(text(&out), "AB0F00FF");
}

#[test]
fn half_word_as_four_digits() {
    let mut out = Vec::new();
    uart_write_hex16(&mut out, 0x1234);
    uart_write_hex16(&mut out, 0x00C5);
    assert_eq!(text(&out), "123400C5");
}

#[test]
fn word_as_eight_digits() {
    let mut out = Vec::new();
    uart_write_hex32(&mut out, 0xDEAD_BEEF);
    uart_write_hex32(&mut out, 0x0000_03E7);
    assert_eq!(text(&out), "DEADBEEF000003E7");
}

#[test]
fn writers_append_after_existing_text() {
    let mut out = Vec::new();
    uart_write_str(&mut out, "CNT1: 0x");
    uart_write_hex32(&mut out, 0x10);
    uart_write_str(&mut out, "\n");
    assert_eq!(text(&out), "CNT1: 0x00000010\r\n");
}
