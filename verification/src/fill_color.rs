//! The fill color of filled symbol rectangles, written `#RRGGBB` or `#RRGGBBAA`.

use vstd::prelude::*;
use crate::error::AppError;
use crate::text::str_chars;

verus! {

/// A color with an opacity; each channel is a byte.
#[derive(Debug, Clone, Copy, PartialEq, Eq, Structural)]
pub struct SymbolFillColor {
    pub red: u8,
    pub green: u8,
    pub blue: u8,
    pub alpha: u8,
}

/// The value of a hexadecimal digit, in either case.
pub open spec fn hex_digit_value(c: char) -> Option<u8> {
    if '0' <= c && c <= '9' {
        Some((c as u32 - '0' as u32) as u8)
    } else if 'a' <= c && c <= 'f' {
        Some((c as u32 - 'a' as u32 + 10) as u8)
    } else if 'A' <= c && c <= 'F' {
        Some((c as u32 - 'A' as u32 + 10) as u8)
    } else {
        None
    }
}

/// The byte written by the two hexadecimal digits at `i` and `i + 1`.
pub open spec fn hex_byte_at(s: Seq<char>, i: int) -> Option<u8> {
    match (hex_digit_value(s[i]), hex_digit_value(s[i + 1])) {
        (Some(hi), Some(lo)) => Some((hi * 16 + lo) as u8),
        _ => None,
    }
}

/// The color that `s` writes as `#RRGGBB` (opaque) or `#RRGGBBAA`, if it is one.
pub open spec fn fill_color_of(s: Seq<char>) -> Option<SymbolFillColor> {
    if (s.len() == 7 || s.len() == 9) && s[0] == '#' {
        match (hex_byte_at(s, 1), hex_byte_at(s, 3), hex_byte_at(s, 5)) {
            (Some(red), Some(green), Some(blue)) => if s.len() == 7 {
                Some(SymbolFillColor { red, green, blue, alpha: 255 })
            } else {
                match hex_byte_at(s, 7) {
                    Some(alpha) => Some(SymbolFillColor { red, green, blue, alpha }),
                    None => None,
                }
            },
            _ => None,
        }
    } else {
        None
    }
}

/// A letter with its ASCII lower case made upper case; other characters stay.
pub open spec fn ascii_upper(c: char) -> char {
    if 'a' <= c && c <= 'z' {
        (c as u32 - 32) as char
    } else {
        c
    }
}

/// Every hexadecimal digit has its numeric value, a letter the same in
/// either case, and nothing else is a digit.
pub proof fn lemma_hex_digits(c: char)
    ensures
        '0' <= c <= '9' ==> hex_digit_value(c) == Some((c as u32 - 48) as u8),
        'a' <= c <= 'f' ==> hex_digit_value(c) == Some((c as u32 - 97 + 10) as u8),
        'A' <= c <= 'F' ==> hex_digit_value(c) == Some((c as u32 - 65 + 10) as u8),
        hex_digit_value(c) is Some <==> ('0' <= c <= '9' || 'a' <= c <= 'f' || 'A' <= c <= 'F'),
        hex_digit_value(c) == hex_digit_value(ascii_upper(c)),
{
    assert('0' as u32 == 48);
    assert('a' as u32 == 97);
    assert('A' as u32 == 65);
    assert('z' as u32 == 122);
    if 'a' <= c && c <= 'z' {
        let u = (c as u32 - 32) as char;
        assert(u as u32 == c as u32 - 32);
        assert('A' <= u && u <= 'Z');
    }
}

/// Reading a color does not depend on the case of its digits: a text and
/// the same text with its letters in upper case give the same color (or
/// are both refused).
pub proof fn lemma_fill_color_ignores_case(s: Seq<char>)
    ensures
        fill_color_of(s) == fill_color_of(s.map_values(|c: char| ascii_upper(c))),
{
    let u = s.map_values(|c: char| ascii_upper(c));
    assert forall|i: int| 0 <= i < s.len() implies hex_digit_value(#[trigger] u[i]) == hex_digit_value(
        s[i],
    ) by {
        lemma_hex_digits(s[i]);
    }
    if s.len() > 0 {
        assert(u[0] == ascii_upper(s[0]));
        assert(s[0] == '#' <==> u[0] == '#') by {
            lemma_hex_digits(s[0]);
            if 'a' <= s[0] && s[0] <= 'z' {
                assert((s[0] as u32 - 32) as char as u32 == s[0] as u32 - 32);
            }
        }
    }
    if (s.len() == 7 || s.len() == 9) {
        assert(hex_byte_at(s, 1) == hex_byte_at(u, 1));
        assert(hex_byte_at(s, 3) == hex_byte_at(u, 3));
        assert(hex_byte_at(s, 5) == hex_byte_at(u, 5));
        if s.len() == 9 {
            assert(hex_byte_at(s, 7) == hex_byte_at(u, 7));
        }
    }
}

fn hex_digit(c: char) -> (res: Option<u8>)
    ensures
        res == hex_digit_value(c),
{
    if '0' <= c && c <= '9' {
        Some((c as u32 - '0' as u32) as u8)
    } else if 'a' <= c && c <= 'f' {
        Some((c as u32 - 'a' as u32 + 10) as u8)
    } else if 'A' <= c && c <= 'F' {
        Some((c as u32 - 'A' as u32 + 10) as u8)
    } else {
        None
    }
}

fn hex_byte(s: &[char], i: usize) -> (res: Option<u8>)
    requires
        i + 1 < s@.len(),
    ensures
        res == hex_byte_at(s@, i as int),
{
    match (hex_digit(s[i]), hex_digit(s[i + 1])) {
        (Some(hi), Some(lo)) => Some(hi * 16 + lo),
        _ => None,
    }
}

impl SymbolFillColor {
    /// Reads a color written `#RRGGBB` (fully opaque) or `#RRGGBBAA`; the
    /// digits may be upper or lower case.
    pub fn parse(value: &str) -> (res: Result<SymbolFillColor, AppError>)
        ensures
            match fill_color_of(value@) {
                Some(c) => res == Ok::<SymbolFillColor, AppError>(c),
                None => res matches Err(AppError::InvalidSymbolFillColor(v)) && v@ == value@,
            },
    {
        let s = str_chars(value);
        let n = s.len();
        if (n == 7 || n == 9) && s[0] == '#' {
            match (hex_byte(&s, 1), hex_byte(&s, 3), hex_byte(&s, 5)) {
                (Some(red), Some(green), Some(blue)) => {
                    if n == 7 {
                        return Ok(SymbolFillColor { red, green, blue, alpha: 255 });
                    }
                    match hex_byte(&s, 7) {
                        Some(alpha) => {
                            return Ok(SymbolFillColor { red, green, blue, alpha });
                        },
                        None => {},
                    }
                },
                _ => {},
            }
        }
        Err(AppError::InvalidSymbolFillColor(value.to_owned()))
    }
}

} // verus!
