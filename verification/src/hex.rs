//! Parsing of 6-digit `RRGGBB` hex color codes into logical colors.
//!
//! A code is exactly 6 hexadecimal digits, case-insensitive, with no `#`
//! prefix; anything else is rejected with `LedError::InvalidColorFormat`.

use vstd::prelude::*;
use vstd::string::StrSliceExecFns;
use crate::ColorRGB;
use crate::LedError;

verus! {

/// True when `c` is an ASCII hexadecimal digit.
pub open spec fn is_hex_digit(c: char) -> bool {
    (('0' as u32) <= (c as u32) && (c as u32) <= ('9' as u32)) || (('a' as u32) <= (c as u32) && (c
        as u32) <= ('f' as u32)) || (('A' as u32) <= (c as u32) && (c as u32) <= ('F' as u32))
}

/// The numeric value of a hex digit.
pub open spec fn hex_digit_value(c: char) -> u8
    recommends
        is_hex_digit(c),
{
    if ('0' as u32) <= (c as u32) && (c as u32) <= ('9' as u32) {
        ((c as u32) - ('0' as u32)) as u8
    } else if ('a' as u32) <= (c as u32) && (c as u32) <= ('f' as u32) {
        ((c as u32) - ('a' as u32) + 10) as u8
    } else {
        ((c as u32) - ('A' as u32) + 10) as u8
    }
}

/// True when `s` is a well-formed hex color code: exactly 6 hex digits.
pub open spec fn valid_hex_color(s: Seq<char>) -> bool {
    s.len() == 6 && forall|i: int| 0 <= i < 6 ==> is_hex_digit(#[trigger] s[i])
}

/// The channel byte given by the hex digit pair at positions `2k`, `2k + 1`.
pub open spec fn hex_byte(s: Seq<char>, k: int) -> u8
    recommends
        valid_hex_color(s),
        0 <= k < 3,
{
    (16 * hex_digit_value(s[2 * k]) + hex_digit_value(s[2 * k + 1])) as u8
}

/// The logical (red, green, blue) color a valid hex code denotes.
pub open spec fn hex_color(s: Seq<char>) -> ColorRGB
    recommends
        valid_hex_color(s),
{
    ColorRGB(hex_byte(s, 0), hex_byte(s, 1), hex_byte(s, 2))
}

/// Parse one character as a hex digit; any other character is rejected.
fn hex_digit(c: char) -> (r: Result<u8, LedError>)
    ensures
        r is Ok <==> is_hex_digit(c),
        r is Ok ==> r->Ok_0 == hex_digit_value(c),
        r is Err ==> r == Err::<u8, LedError>(LedError::InvalidColorFormat),
{
    let v = c as u32;
    if 48 <= v && v <= 57 {
        Ok((v - 48) as u8)
    } else if 97 <= v && v <= 102 {
        Ok((v - 97 + 10) as u8)
    } else if 65 <= v && v <= 70 {
        Ok((v - 65 + 10) as u8)
    } else {
        Err(LedError::InvalidColorFormat)
    }
}

/// Parse a 6-digit `RRGGBB` hex code (case-insensitive, no `#` prefix) into
/// a logical color. A code of any other length, or with any non-hex
/// character, is rejected with `InvalidColorFormat`.
pub fn hex_to_bin(hex: &str) -> (r: Result<ColorRGB, LedError>)
    ensures
        r is Ok <==> valid_hex_color(hex@),
        r is Ok ==> r->Ok_0 == hex_color(hex@),
        r is Err ==> r == Err::<ColorRGB, LedError>(LedError::InvalidColorFormat),
{
    if hex.unicode_len() != 6 {
        return Err(LedError::InvalidColorFormat);
    }
    let d0 = match hex_digit(hex.get_char(0)) {
        Ok(v) => v,
        Err(e) => {
            return Err(e);
        },
    };
    let d1 = match hex_digit(hex.get_char(1)) {
        Ok(v) => v,
        Err(e) => {
            return Err(e);
        },
    };
    let d2 = match hex_digit(hex.get_char(2)) {
        Ok(v) => v,
        Err(e) => {
            return Err(e);
        },
    };
    let d3 = match hex_digit(hex.get_char(3)) {
        Ok(v) => v,
        Err(e) => {
            return Err(e);
        },
    };
    let d4 = match hex_digit(hex.get_char(4)) {
        Ok(v) => v,
        Err(e) => {
            return Err(e);
        },
    };
    let d5 = match hex_digit(hex.get_char(5)) {
        Ok(v) => v,
        Err(e) => {
            return Err(e);
        },
    };
    Ok(ColorRGB(16 * d0 + d1, 16 * d2 + d3, 16 * d4 + d5))
}

} // verus!
