//! Text of the serial report: line ends and fixed-width hexadecimal.
//!
//! Each writer appends characters to a sink; the transport that sends them
//! over the serial line is the caller's.
use vstd::prelude::*;
use vstd::arithmetic::div_mod::{lemma_fundamental_div_mod, lemma_fundamental_div_mod_converse};
use vstd::string::*;

verus! {

/// The text `s` as sent on the serial line: every line feed is preceded by a
/// carriage return.
pub open spec fn crlf(s: Seq<char>) -> Seq<char>
    decreases s.len(),
{
    if s.len() == 0 {
        Seq::empty()
    } else {
        let last = s.last();
        crlf(s.drop_last()) + if last == '\n' {
            seq!['\r', '\n']
        } else {
            seq![last]
        }
    }
}

/// Upper-case hexadecimal digit of a value below sixteen.
pub open spec fn hex_digit(n: nat) -> char {
    if n < 10 {
        ((48 + n) as u8) as char
    } else {
        ((55 + n) as u8) as char
    }
}

/// The `width` lowest hexadecimal digits of `v`, most significant first.
pub open spec fn hex_fixed(v: nat, width: nat) -> Seq<char>
    decreases width,
{
    if width == 0 {
        Seq::empty()
    } else {
        hex_fixed(v / 16, (width - 1) as nat).push(hex_digit(v % 16))
    }
}

/// The lowest `w + 2` digits of `v` are the lowest `w` digits of its high
/// part followed by the two digits of its low byte.
proof fn lemma_hex_split(v: nat, w: nat)
    ensures
        hex_fixed(v, w + 2) == hex_fixed(v / 256, w) + hex_fixed(v % 256, 2),
{
    let q = v / 256;
    let r = v % 256;
    let hi = r / 16;
    let lo = r % 16;
    lemma_fundamental_div_mod(v as int, 256);
    lemma_fundamental_div_mod(r as int, 16);
    assert(v == (16 * q + hi) * 16 + lo) by (nonlinear_arith)
        requires
            v == 256 * q + r,
            r == 16 * hi + lo,
    ;
    lemma_fundamental_div_mod_converse(v as int, 16, (16 * q + hi) as int, lo as int);
    lemma_fundamental_div_mod_converse((v / 16) as int, 16, q as int, hi as int);
    lemma_fundamental_div_mod_converse(hi as int, 16, 0, hi as int);
    lemma_fundamental_div_mod_converse(r as int, 16, hi as int, lo as int);
    reveal_with_fuel(hex_fixed, 3);
    assert(hex_fixed(v / 16, w + 1) == hex_fixed(v / 16 / 16, w).push(hex_digit(v / 16 % 16)));
    assert(hex_fixed(r, 2) =~= seq![hex_digit(hi), hex_digit(lo)]);
    assert(hex_fixed(v, w + 2) =~= hex_fixed(v / 256, w) + hex_fixed(v % 256, 2));
}

fn hex_char(n: u8) -> (c: char)
    requires
        n < 16,
    ensures
        c == hex_digit(n as nat),
{
    if n < 10 {
        (48u8 + n) as char
    } else {
        (55u8 + n) as char
    }
}

/// Appends `s`, writing a carriage return before each line feed.
pub fn uart_write_str(uart: &mut Vec<char>, s: &str)
    ensures
        final(uart)@ == old(uart)@ + crlf(s@),
{
    let n = s.unicode_len();
    let mut i: usize = 0;
    while i < n
        invariant
            n == s@.len(),
            i <= n,
            uart@ == old(uart)@ + crlf(s@.subrange(0, i as int)),
        decreases n - i,
    {
        let c = s.get_char(i);
        if c == '\n' {
            uart.push('\r');
        }
        uart.push(c);
        proof {
            let pre = s@.subrange(0, i as int);
            let next = s@.subrange(0, i + 1);
            assert(next.drop_last() =~= pre);
            assert(next.last() == c);
        }
        i = i + 1;
    }
    assert(s@.subrange(0, n as int) =~= s@);
}

/// Appends `byte` as two upper-case hexadecimal digits.
pub fn uart_write_hex(uart: &mut Vec<char>, byte: u8)
    ensures
        final(uart)@ == old(uart)@ + hex_fixed(byte as nat, 2),
{
    let high = byte >> 4;
    let low = byte & 0x0F;
    assert(high == byte / 16 && low == byte % 16) by (bit_vector)
        requires
            high == byte >> 4,
            low == byte & 0x0F,
    ;
    uart.push(hex_char(high));
    uart.push(hex_char(low));
    reveal_with_fuel(hex_fixed, 3);
    assert(hex_fixed(byte as nat, 2) =~= seq![hex_digit(high as nat), hex_digit(low as nat)]);
}

/// Appends `value` as four upper-case hexadecimal digits.
pub fn uart_write_hex16(uart: &mut Vec<char>, value: u16)
    ensures
        final(uart)@ == old(uart)@ + hex_fixed(value as nat, 4),
{
    let high = (value >> 8) as u8;
    let low = (value & 0xFF) as u8;
    assert(value >> 8 == value / 256 && value & 0xFF == value % 256) by (bit_vector);
    uart_write_hex(uart, high);
    uart_write_hex(uart, low);
    proof {
        lemma_hex_split(value as nat, 2);
    }
    assert(uart@ =~= old(uart)@ + hex_fixed(value as nat, 4));
}

/// Appends `value` as eight upper-case hexadecimal digits.
pub fn uart_write_hex32(uart: &mut Vec<char>, value: u32)
    ensures
        final(uart)@ == old(uart)@ + hex_fixed(value as nat, 8),
{
    let b3 = ((value >> 24) & 0xFF) as u8;
    let b2 = ((value >> 16) & 0xFF) as u8;
    let b1 = ((value >> 8) & 0xFF) as u8;
    let b0 = (value & 0xFF) as u8;
    assert((value >> 24) & 0xFF == value / 256 / 256 / 256 % 256) by (bit_vector);
    assert((value >> 16) & 0xFF == value / 256 / 256 % 256) by (bit_vector);
    assert((value >> 8) & 0xFF == value / 256 % 256) by (bit_vector);
    assert(value & 0xFF == value % 256) by (bit_vector);
    uart_write_hex(uart, b3);
    uart_write_hex(uart, b2);
    uart_write_hex(uart, b1);
    uart_write_hex(uart, b0);
    proof {
        let v = value as nat;
        lemma_hex_split(v, 6);
        lemma_hex_split(v / 256, 4);
        lemma_hex_split(v / 256 / 256, 2);
        assert(v / 256 / 256 / 256 < 256);
        assert(v / 256 / 256 / 256 % 256 == v / 256 / 256 / 256);
    }
    assert(uart@ =~= old(uart)@ + hex_fixed(value as nat, 8));
}

} // verus!
