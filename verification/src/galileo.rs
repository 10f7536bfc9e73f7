//! Galileo E1 Open Service pilot (E1-C) primary codes: decoding the
//! hex-encoded 4092-chip memory codes into bipolar chips.

use vstd::prelude::*;

verus! {

broadcast use vstd::string::is_ascii_spec_bytes;

/// Chips per Galileo E1-C primary code period (4 ms at 1.023 Mcps).
pub const GALILEO_E1_CHIPS: usize = 4092;

/// Number of Galileo E1-C codes (SV 1–50).
pub const GALILEO_E1_NUM_SATS: usize = 50;

/// A hexadecimal digit: `0-9`, `a-f` or `A-F`.
pub open spec fn is_hex_digit(c: char) -> bool {
    ('0' <= c <= '9') || ('a' <= c <= 'f') || ('A' <= c <= 'F')
}

/// The value (0..16) of a hexadecimal digit.
pub open spec fn hex_digit_value(c: char) -> u32 {
    if '0' <= c <= '9' {
        (c as u32 - '0' as u32) as u32
    } else if 'a' <= c <= 'f' {
        (c as u32 - 'a' as u32 + 10) as u32
    } else {
        (c as u32 - 'A' as u32 + 10) as u32
    }
}

/// Bit `b` of a 4-bit value, most significant first (`b = 0` is bit 3).
pub open spec fn nibble_bit(v: u32, b: u32) -> u32 {
    (v >> ((3 - b) as u32)) & 1u32
}

/// Chip `j` of a hex-encoded code: each hex digit encodes 4 chips, most
/// significant first, a 1 bit giving +1 and a 0 bit -1; chips past the end
/// of the string are 0.
pub open spec fn hex_chip(hex: Seq<char>, j: int) -> i8 {
    if j / 4 < hex.len() {
        if nibble_bit(hex_digit_value(hex[j / 4]), (j % 4) as u32) == 1 {
            1i8
        } else {
            -1i8
        }
    } else {
        0i8
    }
}

/// The value of a hexadecimal digit given as an ASCII byte.
fn hex_byte_value(c: u8) -> (v: u32)
    requires
        is_hex_digit(c as char),
    ensures
        v == hex_digit_value(c as char),
        v < 16,
{
    if 48u8 <= c && c <= 57u8 {
        (c - 48u8) as u32
    } else if 97u8 <= c && c <= 102u8 {
        (c - 97u8) as u32 + 10
    } else {
        (c - 65u8) as u32 + 10
    }
}

/// Decode a hex string (MSB-first per hex digit) into ±1 bipolar chips.
///
/// Each hex character encodes 4 chips.  `hex_char` 0 → chips [-1,-1,-1,-1],
/// F → [+1,+1,+1,+1].  Returns `GALILEO_E1_CHIPS` chips; chips that the
/// string does not reach are 0.
pub fn hex_to_chips(hex: &str) -> (chips: Vec<i8>)
    requires
        forall|i: int| 0 <= i < hex@.len() ==> is_hex_digit(#[trigger] hex@[i]),
    ensures
        chips@ == Seq::new(GALILEO_E1_CHIPS as nat, |j: int| hex_chip(hex@, j)),
{
    assert(vstd::string::is_ascii(hex));
    let bytes = hex.as_bytes();
    assert(bytes@.len() == hex@.len());
    let mut chips: Vec<i8> = Vec::with_capacity(GALILEO_E1_CHIPS);
    let mut j: usize = 0;
    while j < GALILEO_E1_CHIPS
        invariant
            j <= GALILEO_E1_CHIPS,
            bytes@.len() == hex@.len(),
            forall|i: int| 0 <= i < hex@.len() ==> #[trigger] bytes@[i] == hex@[i] as u8,
            forall|i: int| 0 <= i < hex@.len() ==> is_hex_digit(#[trigger] hex@[i]),
            chips.len() == j,
            forall|m: int| 0 <= m < j ==> #[trigger] chips@[m] == hex_chip(hex@, m),
        decreases GALILEO_E1_CHIPS - j,
    {
        let i = j / 4;
        let chip = if i < bytes.len() {
            let c = bytes[i];
            assert(c as char == hex@[i as int]);
            let val = hex_byte_value(c);
            let bit = (j % 4) as u32;
            if (val >> (3 - bit)) & 1 == 1 {
                1
            } else {
                -1
            }
        } else {
            0
        };
        chips.push(chip);
        j += 1;
    }
    assert(chips@ =~= Seq::new(GALILEO_E1_CHIPS as nat, |j: int| hex_chip(hex@, j)));
    chips
}

} // verus!
