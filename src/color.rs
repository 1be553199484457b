//! Parsing of `#RRGGBB` color strings.
use vstd::prelude::*;

verus! {

/// Level of each channel of the neutral gray used when a color string does
/// not parse. It is the color that `#808080` names.
pub const GRAY_LEVEL: u8 = 128;

/// An opaque color with one byte per channel.
#[derive(Clone, Copy, Debug, PartialEq, Eq, Structural)]
pub struct Rgb {
    pub r: u8,
    pub g: u8,
    pub b: u8,
}

/// The neutral gray that replaces a malformed color string.
pub open spec fn spec_default_gray() -> Rgb {
    Rgb { r: GRAY_LEVEL, g: GRAY_LEVEL, b: GRAY_LEVEL }
}

/// Whether `c` is a hexadecimal digit, in either case.
pub open spec fn is_hex_digit(c: char) -> bool {
    ('0' <= c && c <= '9') || ('a' <= c && c <= 'f') || ('A' <= c && c <= 'F')
}

/// The value of a hexadecimal digit.
pub open spec fn hex_value(c: char) -> nat {
    if '0' <= c && c <= '9' {
        (c as u32 - '0' as u32) as nat
    } else if 'a' <= c && c <= 'f' {
        (c as u32 - 'a' as u32 + 10) as nat
    } else {
        (c as u32 - 'A' as u32 + 10) as nat
    }
}

/// Whether `s` has the form `#RRGGBB`: seven characters, a `#` and six
/// hexadecimal digits.
pub open spec fn is_color_text(s: Seq<char>) -> bool {
    &&& s.len() == 7
    &&& s[0] == '#'
    &&& forall|i: int| 1 <= i < 7 ==> is_hex_digit(#[trigger] s[i])
}

/// The byte written by the two digits of `s` that start at `i`.
pub open spec fn channel_at(s: Seq<char>, i: int) -> u8 {
    (16 * hex_value(s[i]) + hex_value(s[i + 1])) as u8
}

/// The color that `s` names, if it has the form `#RRGGBB`.
pub open spec fn color_of(s: Seq<char>) -> Option<Rgb> {
    if is_color_text(s) {
        Some(Rgb { r: channel_at(s, 1), g: channel_at(s, 3), b: channel_at(s, 5) })
    } else {
        None
    }
}

/// The color that `s` names, or the neutral gray where it names none.
pub open spec fn color_or_gray(s: Seq<char>) -> Rgb {
    match color_of(s) {
        Some(c) => c,
        None => spec_default_gray(),
    }
}

/// The neutral gray that replaces a malformed color string.
pub fn default_gray() -> (r: Rgb)
    ensures
        r == spec_default_gray(),
{
    Rgb { r: GRAY_LEVEL, g: GRAY_LEVEL, b: GRAY_LEVEL }
}

/// The value of `c` as a hexadecimal digit, if it is one.
pub fn hex_digit(c: char) -> (r: Option<u8>)
    ensures
        r is Some <==> is_hex_digit(c),
        r is Some ==> r->0 as nat == hex_value(c) && r->0 < 16,
{
    if '0' <= c && c <= '9' {
        Some((c as u32 - '0' as u32) as u8)
    } else if 'a' <= c && c <= 'f' {
        Some((c as u32 - 'a' as u32 + 10) as u8)
    } else if 'A' <= c && c <= 'F' {
        Some((c as u32 - 'A' as u32 + 10) as u8)
    } else {
        None
    }
}

/// Reads the byte written by the two hexadecimal digits of `s` at `i`.
fn channel(s: &str, i: usize) -> (r: Option<u8>)
    requires
        1 <= i <= 5,
        i + 1 < s@.len(),
    ensures
        r is Some <==> (is_hex_digit(s@[i as int]) && is_hex_digit(s@[i + 1])),
        r is Some ==> r->0 == channel_at(s@, i as int),
{
    let hi = hex_digit(s.get_char(i));
    let lo = hex_digit(s.get_char(i + 1));
    match (hi, lo) {
        (Some(h), Some(l)) => Some(16 * h + l),
        _ => None,
    }
}

/// Parses a color of the form `#RRGGBB`, digits in either case. Any other
/// text gives `None`.
pub fn parse_color(s: &str) -> (r: Option<Rgb>)
    ensures
        r == color_of(s@),
{
    let n = s.unicode_len();
    if n != 7 || s.get_char(0) != '#' {
        return None;
    }
    let r = channel(s, 1);
    let g = channel(s, 3);
    let b = channel(s, 5);
    match (r, g, b) {
        (Some(r), Some(g), Some(b)) => {
            assert(is_color_text(s@)) by {
                assert forall|i: int| 1 <= i < 7 implies is_hex_digit(#[trigger] s@[i]) by {
                    if i == 2 || i == 4 || i == 6 {
                        assert(is_hex_digit(s@[i - 1 + 1]));
                    }
                }
            }
            Some(Rgb { r, g, b })
        },
        _ => None,
    }
}

/// The color that `s` names, or the neutral gray where `s` is not of the
/// form `#RRGGBB`.
pub fn parse_color_or_gray(s: &str) -> (r: Rgb)
    ensures
        r == color_or_gray(s@),
{
    match parse_color(s) {
        Some(c) => c,
        None => default_gray(),
    }
}

} // verus!
