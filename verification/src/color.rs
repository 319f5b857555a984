//! RGBA colors and the color-text syntax they are stored in.
//!
//! A stored color string is one of:
//!
//! - a hex form: `#` followed by 3 hexadecimal digits (`#rgb`, each digit
//!   doubled), 6 digits (`#rrggbb`, opaque) or 8 digits (`#rrggbbaa`);
//! - a decimal form `rgb(R, G, B)` with components 0 to 255, spaces around
//!   each component allowed, opaque;
//! - one of a small set of lower-case color names.
//!
//! Components are kept as bytes: a byte `v` stands for the fraction `v/255`
//! of full intensity, so every component lies in the unit interval by
//! construction. [`Rgba::to_hex`] writes the canonical `#rrggbbaa` form, and
//! [`lemma_color_round_trip`] proves that parsing it gives the color back.

use vstd::prelude::*;

use crate::text::all_dec;
use crate::text::dec_value;
use crate::text::find_from;
use crate::text::hex_val;
use crate::text::is_hex_digit;
use crate::text::trim;
use crate::text::dec_u32;
use crate::text::find_char_from;
use crate::text::hex_digit;
use crate::text::lemma_dec_value_bound;
use crate::text::lemma_find_from;
use crate::text::str_eq;
use crate::text::trim_str;

verus! {

/// A color with red, green, blue and alpha components, each a byte scaled
/// so that 0 is none and 255 is full (the fraction `v/255` of the unit
/// interval).
#[derive(Clone, Copy, Debug, PartialEq, Eq, Structural)]
pub struct Rgba {
    pub red: u8,
    pub green: u8,
    pub blue: u8,
    pub alpha: u8,
}

/// Every character of `s` is a hexadecimal digit.
pub open spec fn all_hex(s: Seq<char>) -> bool {
    forall|i: int| 0 <= i < s.len() ==> is_hex_digit(s[i])
}

/// The byte written by the two hexadecimal digits at `i` and `i + 1` of `s`.
pub open spec fn hex2(s: Seq<char>, i: int) -> int {
    16 * hex_val(s[i]) + hex_val(s[i + 1])
}

/// The color written by the digits `h` of a hex form (everything after the
/// `#`): 3 digits with each digit doubled, 6 digits, or 8 digits with alpha.
pub open spec fn hex_color_of(h: Seq<char>) -> Option<Rgba> {
    if !all_hex(h) {
        None
    } else if h.len() == 3 {
        Some(
            Rgba {
                red: (17 * hex_val(h[0])) as u8,
                green: (17 * hex_val(h[1])) as u8,
                blue: (17 * hex_val(h[2])) as u8,
                alpha: 255,
            },
        )
    } else if h.len() == 6 {
        Some(
            Rgba {
                red: hex2(h, 0) as u8,
                green: hex2(h, 2) as u8,
                blue: hex2(h, 4) as u8,
                alpha: 255,
            },
        )
    } else if h.len() == 8 {
        Some(
            Rgba {
                red: hex2(h, 0) as u8,
                green: hex2(h, 2) as u8,
                blue: hex2(h, 4) as u8,
                alpha: hex2(h, 6) as u8,
            },
        )
    } else {
        None
    }
}

/// One component of a decimal form: after trimming spaces, one to three
/// decimal digits whose value is at most 255.
pub open spec fn component_of(s: Seq<char>) -> Option<u8> {
    let t = trim(s);
    if 1 <= t.len() <= 3 && all_dec(t) && dec_value(t) <= 255 {
        Some(dec_value(t) as u8)
    } else {
        None
    }
}

/// The color written by the inside of a decimal form `rgb(...)`: exactly two
/// commas splitting the body into three components.
pub open spec fn rgb_of(body: Seq<char>) -> Option<Rgba> {
    let i = find_from(body, ',', 0);
    let j = find_from(body, ',', i + 1);
    let k = find_from(body, ',', j + 1);
    if i < body.len() && j < body.len() && k >= body.len() {
        let r = component_of(body.subrange(0, i));
        let g = component_of(body.subrange(i + 1, j));
        let b = component_of(body.subrange(j + 1, body.len() as int));
        if r is Some && g is Some && b is Some {
            Some(Rgba { red: r->0, green: g->0, blue: b->0, alpha: 255 })
        } else {
            None
        }
    } else {
        None
    }
}

/// The color a recognized name stands for. Names are lower case; the values
/// are the common ones for these names.
pub open spec fn named_of(s: Seq<char>) -> Option<Rgba> {
    if s == "black"@ {
        Some(Rgba { red: 0, green: 0, blue: 0, alpha: 255 })
    } else if s == "white"@ {
        Some(Rgba { red: 255, green: 255, blue: 255, alpha: 255 })
    } else if s == "red"@ {
        Some(Rgba { red: 255, green: 0, blue: 0, alpha: 255 })
    } else if s == "green"@ {
        Some(Rgba { red: 0, green: 128, blue: 0, alpha: 255 })
    } else if s == "blue"@ {
        Some(Rgba { red: 0, green: 0, blue: 255, alpha: 255 })
    } else if s == "yellow"@ {
        Some(Rgba { red: 255, green: 255, blue: 0, alpha: 255 })
    } else if s == "cyan"@ {
        Some(Rgba { red: 0, green: 255, blue: 255, alpha: 255 })
    } else if s == "magenta"@ {
        Some(Rgba { red: 255, green: 0, blue: 255, alpha: 255 })
    } else if s == "gray"@ || s == "grey"@ {
        Some(Rgba { red: 128, green: 128, blue: 128, alpha: 255 })
    } else {
        None
    }
}

/// The color written by `s` in any of the supported syntaxes, or `None`
/// when `s` is not a well-formed color expression.
pub open spec fn rgba_of(s: Seq<char>) -> Option<Rgba> {
    if s.len() >= 1 && s[0] == '#' {
        hex_color_of(s.subrange(1, s.len() as int))
    } else if s.len() >= 5 && s[0] == 'r' && s[1] == 'g' && s[2] == 'b' && s[3] == '(' && s[s.len()
        - 1] == ')' {
        rgb_of(s.subrange(4, s.len() - 1))
    } else {
        named_of(s)
    }
}

/// The character that writes the hexadecimal digit `v` (lower case).
pub open spec fn hex_digit_char(v: int) -> char {
    if v == 0 {
        '0'
    } else if v == 1 {
        '1'
    } else if v == 2 {
        '2'
    } else if v == 3 {
        '3'
    } else if v == 4 {
        '4'
    } else if v == 5 {
        '5'
    } else if v == 6 {
        '6'
    } else if v == 7 {
        '7'
    } else if v == 8 {
        '8'
    } else if v == 9 {
        '9'
    } else if v == 10 {
        'a'
    } else if v == 11 {
        'b'
    } else if v == 12 {
        'c'
    } else if v == 13 {
        'd'
    } else if v == 14 {
        'e'
    } else if v == 15 {
        'f'
    } else {
        '0'
    }
}

/// The canonical `#rrggbbaa` spelling of a color.
pub open spec fn hex_of(c: Rgba) -> Seq<char> {
    seq![
        '#',
        hex_digit_char(c.red as int / 16),
        hex_digit_char(c.red as int % 16),
        hex_digit_char(c.green as int / 16),
        hex_digit_char(c.green as int % 16),
        hex_digit_char(c.blue as int / 16),
        hex_digit_char(c.blue as int % 16),
        hex_digit_char(c.alpha as int / 16),
        hex_digit_char(c.alpha as int % 16),
    ]
}

/// `hex_digit_char` writes a digit whose value reads back as `v`.
pub proof fn lemma_hex_digit_char(v: int)
    requires
        0 <= v < 16,
    ensures
        is_hex_digit(hex_digit_char(v)),
        hex_val(hex_digit_char(v)) == v,
{
}

/// Parsing is the inverse of writing: every color, written in its canonical
/// `#rrggbbaa` spelling, parses back to exactly itself. With components kept
/// as fractions of 255 this also means a parsed color never leaves the unit
/// interval.
pub proof fn lemma_color_round_trip(c: Rgba)
    ensures
        rgba_of(hex_of(c)) == Some(c),
{
    let s = hex_of(c);
    let h = s.subrange(1, s.len() as int);
    assert(h.len() == 8);
    lemma_hex_digit_char(c.red as int / 16);
    lemma_hex_digit_char(c.red as int % 16);
    lemma_hex_digit_char(c.green as int / 16);
    lemma_hex_digit_char(c.green as int % 16);
    lemma_hex_digit_char(c.blue as int / 16);
    lemma_hex_digit_char(c.blue as int % 16);
    lemma_hex_digit_char(c.alpha as int / 16);
    lemma_hex_digit_char(c.alpha as int % 16);
    assert(all_hex(h)) by {
        assert forall|i: int| 0 <= i < h.len() implies is_hex_digit(h[i]) by {
            assert(h[i] == s[i + 1]);
        }
    }
    assert(hex2(h, 0) == c.red);
    assert(hex2(h, 2) == c.green);
    assert(hex2(h, 4) == c.blue);
    assert(hex2(h, 6) == c.alpha);
}

/// Reads the digits of a hex form (everything after the `#`).
fn parse_hex_digits(h: &str) -> (r: Option<Rgba>)
    ensures
        r == hex_color_of(h@),
{
    let n = h.unicode_len();
    if n == 3 {
        let d0 = hex_digit(h.get_char(0));
        let d1 = hex_digit(h.get_char(1));
        let d2 = hex_digit(h.get_char(2));
        match (d0, d1, d2) {
            (Some(v0), Some(v1), Some(v2)) => {
                proof {
                    assert(all_hex(h@)) by {
                        assert forall|i: int| 0 <= i < h@.len() implies is_hex_digit(h@[i]) by {
                            assert(i == 0 || i == 1 || i == 2);
                        }
                    }
                }
                Some(
                    Rgba {
                        red: 17 * v0,
                        green: 17 * v1,
                        blue: 17 * v2,
                        alpha: 255,
                    },
                )
            },
            _ => None,
        }
    } else if n == 6 {
        let p0 = hex_pair(h, 0);
        let p1 = hex_pair(h, 2);
        let p2 = hex_pair(h, 4);
        match (p0, p1, p2) {
            (Some(v0), Some(v1), Some(v2)) => {
                proof {
                    assert(all_hex(h@)) by {
                        assert forall|i: int| 0 <= i < h@.len() implies is_hex_digit(h@[i]) by {
                            assert(0 <= i < 6);
                        }
                    }
                }
                Some(Rgba { red: v0, green: v1, blue: v2, alpha: 255 })
            },
            _ => None,
        }
    } else if n == 8 {
        let p0 = hex_pair(h, 0);
        let p1 = hex_pair(h, 2);
        let p2 = hex_pair(h, 4);
        let p3 = hex_pair(h, 6);
        match (p0, p1, p2, p3) {
            (Some(v0), Some(v1), Some(v2), Some(v3)) => {
                proof {
                    assert(all_hex(h@)) by {
                        assert forall|i: int| 0 <= i < h@.len() implies is_hex_digit(h@[i]) by {
                            assert(0 <= i < 8);
                        }
                    }
                }
                Some(Rgba { red: v0, green: v1, blue: v2, alpha: v3 })
            },
            _ => None,
        }
    } else {
        None
    }
}

/// Reads the byte written by the two hexadecimal digits at `i` and `i + 1`.
fn hex_pair(h: &str, i: usize) -> (r: Option<u8>)
    requires
        i + 2 <= h@.len(),
    ensures
        match r {
            Some(v) => is_hex_digit(h@[i as int]) && is_hex_digit(h@[i as int + 1]) && v as int
                == hex2(h@, i as int),
            None => !is_hex_digit(h@[i as int]) || !is_hex_digit(h@[i as int + 1]),
        },
{
    let n = h.unicode_len();
    let d0 = hex_digit(h.get_char(i));
    let d1 = hex_digit(h.get_char(i + 1));
    match (d0, d1) {
        (Some(v0), Some(v1)) => Some(16 * v0 + v1),
        _ => None,
    }
}

/// Reads one component of a decimal form.
fn parse_component(s: &str) -> (r: Option<u8>)
    ensures
        r == component_of(s@),
{
    let t = trim_str(s);
    let n = t.unicode_len();
    if n == 0 || n > 3 {
        return None;
    }
    match dec_u32(t) {
        None => None,
        Some(v) => {
            proof {
                lemma_dec_value_bound(t@);
            }
            if v <= 255 {
                Some(v as u8)
            } else {
                None
            }
        },
    }
}

/// Reads the inside of a decimal form `rgb(...)`.
fn parse_rgb_body(body: &str) -> (r: Option<Rgba>)
    ensures
        r == rgb_of(body@),
{
    let n = body.unicode_len();
    let i = find_char_from(body, ',', 0);
    proof {
        lemma_find_from(body@, ',', 0);
    }
    if i >= n {
        return None;
    }
    let j = find_char_from(body, ',', i + 1);
    proof {
        lemma_find_from(body@, ',', i as int + 1);
    }
    if j >= n {
        return None;
    }
    let k = find_char_from(body, ',', j + 1);
    proof {
        lemma_find_from(body@, ',', j as int + 1);
    }
    if k < n {
        return None;
    }
    let c_red = parse_component(body.substring_char(0, i));
    let c_green = parse_component(body.substring_char(i + 1, j));
    let c_blue = parse_component(body.substring_char(j + 1, n));
    match (c_red, c_green, c_blue) {
        (Some(red), Some(green), Some(blue)) => Some(Rgba { red, green, blue, alpha: 255 }),
        _ => None,
    }
}

/// Looks `s` up among the recognized color names.
fn parse_named(s: &str) -> (r: Option<Rgba>)
    ensures
        r == named_of(s@),
{
    if str_eq(s, "black") {
        Some(Rgba { red: 0, green: 0, blue: 0, alpha: 255 })
    } else if str_eq(s, "white") {
        Some(Rgba { red: 255, green: 255, blue: 255, alpha: 255 })
    } else if str_eq(s, "red") {
        Some(Rgba { red: 255, green: 0, blue: 0, alpha: 255 })
    } else if str_eq(s, "green") {
        Some(Rgba { red: 0, green: 128, blue: 0, alpha: 255 })
    } else if str_eq(s, "blue") {
        Some(Rgba { red: 0, green: 0, blue: 255, alpha: 255 })
    } else if str_eq(s, "yellow") {
        Some(Rgba { red: 255, green: 255, blue: 0, alpha: 255 })
    } else if str_eq(s, "cyan") {
        Some(Rgba { red: 0, green: 255, blue: 255, alpha: 255 })
    } else if str_eq(s, "magenta") {
        Some(Rgba { red: 255, green: 0, blue: 255, alpha: 255 })
    } else if str_eq(s, "gray") {
        Some(Rgba { red: 128, green: 128, blue: 128, alpha: 255 })
    } else if str_eq(s, "grey") {
        Some(Rgba { red: 128, green: 128, blue: 128, alpha: 255 })
    } else {
        None
    }
}

/// Parses a stored color string in any of the supported syntaxes.
pub fn parse_color(s: &str) -> (r: Option<Rgba>)
    ensures
        r == rgba_of(s@),
{
    let n = s.unicode_len();
    if n >= 1 && s.get_char(0) == '#' {
        let h = s.substring_char(1, n);
        parse_hex_digits(h)
    } else if n >= 5 && s.get_char(0) == 'r' && s.get_char(1) == 'g' && s.get_char(2) == 'b'
        && s.get_char(3) == '(' && s.get_char(n - 1) == ')' {
        let body = s.substring_char(4, n - 1);
        parse_rgb_body(body)
    } else {
        parse_named(s)
    }
}

impl Rgba {
    /// Writes the color in its canonical `#rrggbbaa` spelling.
    pub fn to_hex(&self) -> (r: String)
        ensures
            r@ == hex_of(*self),
    {
        let mut out = String::from_str("#");
        proof {
            reveal_strlit("#");
        }
        out.append(nibble_str(self.red / 16));
        out.append(nibble_str(self.red % 16));
        out.append(nibble_str(self.green / 16));
        out.append(nibble_str(self.green % 16));
        out.append(nibble_str(self.blue / 16));
        out.append(nibble_str(self.blue % 16));
        out.append(nibble_str(self.alpha / 16));
        out.append(nibble_str(self.alpha % 16));
        proof {
            assert(out@ =~= hex_of(*self));
        }
        out
    }
}

/// The one-character string that writes the hexadecimal digit `v`.
fn nibble_str(v: u8) -> (r: &'static str)
    requires
        v < 16,
    ensures
        r@ =~= seq![hex_digit_char(v as int)],
{
    proof {
        reveal_strlit("0");
        reveal_strlit("1");
        reveal_strlit("2");
        reveal_strlit("3");
        reveal_strlit("4");
        reveal_strlit("5");
        reveal_strlit("6");
        reveal_strlit("7");
        reveal_strlit("8");
        reveal_strlit("9");
        reveal_strlit("a");
        reveal_strlit("b");
        reveal_strlit("c");
        reveal_strlit("d");
        reveal_strlit("e");
        reveal_strlit("f");
    }
    match v {
        0 => "0",
        1 => "1",
        2 => "2",
        3 => "3",
        4 => "4",
        5 => "5",
        6 => "6",
        7 => "7",
        8 => "8",
        9 => "9",
        10 => "a",
        11 => "b",
        12 => "c",
        13 => "d",
        14 => "e",
        _ => "f",
    }
}

} // verus!
