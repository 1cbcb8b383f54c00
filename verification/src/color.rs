//! Background colours: parsing of CSS-style colour strings — the hex
//! forms and the sixteen basic named colours — resolved to opaque RGB,
//! with an opaque-white fallback for anything that does not parse.
//! Function forms such as `rgb(..)`, percentages and floating-point
//! components are not parsed and fall back to white.

use vstd::prelude::*;
use vstd::string::StrSliceExecFns;

verus! {

/// An opaque RGB colour.
#[derive(Clone, Copy, PartialEq, Eq, Structural, Debug)]
pub struct Rgb {
    pub r: u8,
    pub g: u8,
    pub b: u8,
}

/// The value of a hexadecimal digit character, or -1 if it is none.
pub open spec fn spec_hex_val(c: char) -> int {
    if '0' <= c <= '9' {
        c as int - '0' as int
    } else if 'a' <= c <= 'f' {
        10 + c as int - 'a' as int
    } else if 'A' <= c <= 'F' {
        10 + c as int - 'A' as int
    } else {
        -1
    }
}

/// Whether every character of `s` is a hexadecimal digit.
pub open spec fn spec_all_hex(s: Seq<char>) -> bool {
    forall|i: int| 0 <= i < s.len() ==> spec_hex_val(s[i]) >= 0
}

/// The colour denoted by one of the sixteen basic CSS colour names,
/// or nothing.
pub open spec fn spec_named_color(s: Seq<char>) -> Option<Rgb> {
    if s == "black"@ {
        Some(Rgb { r: 0x00, g: 0x00, b: 0x00 })
    } else if s == "silver"@ {
        Some(Rgb { r: 0xc0, g: 0xc0, b: 0xc0 })
    } else if s == "gray"@ {
        Some(Rgb { r: 0x80, g: 0x80, b: 0x80 })
    } else if s == "white"@ {
        Some(Rgb { r: 0xff, g: 0xff, b: 0xff })
    } else if s == "maroon"@ {
        Some(Rgb { r: 0x80, g: 0x00, b: 0x00 })
    } else if s == "red"@ {
        Some(Rgb { r: 0xff, g: 0x00, b: 0x00 })
    } else if s == "purple"@ {
        Some(Rgb { r: 0x80, g: 0x00, b: 0x80 })
    } else if s == "fuchsia"@ {
        Some(Rgb { r: 0xff, g: 0x00, b: 0xff })
    } else if s == "green"@ {
        Some(Rgb { r: 0x00, g: 0x80, b: 0x00 })
    } else if s == "lime"@ {
        Some(Rgb { r: 0x00, g: 0xff, b: 0x00 })
    } else if s == "olive"@ {
        Some(Rgb { r: 0x80, g: 0x80, b: 0x00 })
    } else if s == "yellow"@ {
        Some(Rgb { r: 0xff, g: 0xff, b: 0x00 })
    } else if s == "navy"@ {
        Some(Rgb { r: 0x00, g: 0x00, b: 0x80 })
    } else if s == "blue"@ {
        Some(Rgb { r: 0x00, g: 0x00, b: 0xff })
    } else if s == "teal"@ {
        Some(Rgb { r: 0x00, g: 0x80, b: 0x80 })
    } else if s == "aqua"@ {
        Some(Rgb { r: 0x00, g: 0xff, b: 0xff })
    } else {
        None
    }
}

/// The colour denoted by a CSS-style string: the hex forms `#rgb`,
/// `#rgba`, `#rrggbb` and `#rrggbbaa` (alpha digits are accepted and
/// ignored, the result is always opaque), or one of the sixteen basic
/// colour names. Anything else denotes nothing.
pub open spec fn spec_parse_color(s: Seq<char>) -> Option<Rgb> {
    if spec_named_color(s) is Some {
        spec_named_color(s)
    } else if s.len() >= 1 && s[0] == '#' && spec_all_hex(s.subrange(1, s.len() as int)) {
        let body = s.subrange(1, s.len() as int);
        if body.len() == 3 || body.len() == 4 {
            Some(
                Rgb {
                    r: (17 * spec_hex_val(body[0])) as u8,
                    g: (17 * spec_hex_val(body[1])) as u8,
                    b: (17 * spec_hex_val(body[2])) as u8,
                },
            )
        } else if body.len() == 6 || body.len() == 8 {
            Some(
                Rgb {
                    r: (16 * spec_hex_val(body[0]) + spec_hex_val(body[1])) as u8,
                    g: (16 * spec_hex_val(body[2]) + spec_hex_val(body[3])) as u8,
                    b: (16 * spec_hex_val(body[4]) + spec_hex_val(body[5])) as u8,
                },
            )
        } else {
            None
        }
    } else {
        None
    }
}

/// The background colour for a configuration string: the parsed colour,
/// or opaque white when the string does not parse.
pub open spec fn spec_bg_color(s: Seq<char>) -> Rgb {
    match spec_parse_color(s) {
        Option::Some(c) => c,
        Option::None => Rgb { r: 255, g: 255, b: 255 },
    }
}

/// The value of one hexadecimal digit character.
fn hex_val(c: char) -> (v: i32)
    ensures
        v as int == spec_hex_val(c),
        -1 <= v < 16,
{
    if '0' <= c && c <= '9' {
        (c as u32 as i32) - ('0' as u32 as i32)
    } else if 'a' <= c && c <= 'f' {
        10 + (c as u32 as i32) - ('a' as u32 as i32)
    } else if 'A' <= c && c <= 'F' {
        10 + (c as u32 as i32) - ('A' as u32 as i32)
    } else {
        -1
    }
}

/// Look a string up among the sixteen basic CSS colour names.
fn named_color(s: &str) -> (c: Option<Rgb>)
    ensures
        c == spec_named_color(s@),
{
    if crate::textfmt::str_eq(s, "black") {
        Some(Rgb { r: 0x00, g: 0x00, b: 0x00 })
    } else if crate::textfmt::str_eq(s, "silver") {
        Some(Rgb { r: 0xc0, g: 0xc0, b: 0xc0 })
    } else if crate::textfmt::str_eq(s, "gray") {
        Some(Rgb { r: 0x80, g: 0x80, b: 0x80 })
    } else if crate::textfmt::str_eq(s, "white") {
        Some(Rgb { r: 0xff, g: 0xff, b: 0xff })
    } else if crate::textfmt::str_eq(s, "maroon") {
        Some(Rgb { r: 0x80, g: 0x00, b: 0x00 })
    } else if crate::textfmt::str_eq(s, "red") {
        Some(Rgb { r: 0xff, g: 0x00, b: 0x00 })
    } else if crate::textfmt::str_eq(s, "purple") {
        Some(Rgb { r: 0x80, g: 0x00, b: 0x80 })
    } else if crate::textfmt::str_eq(s, "fuchsia") {
        Some(Rgb { r: 0xff, g: 0x00, b: 0xff })
    } else if crate::textfmt::str_eq(s, "green") {
        Some(Rgb { r: 0x00, g: 0x80, b: 0x00 })
    } else if crate::textfmt::str_eq(s, "lime") {
        Some(Rgb { r: 0x00, g: 0xff, b: 0x00 })
    } else if crate::textfmt::str_eq(s, "olive") {
        Some(Rgb { r: 0x80, g: 0x80, b: 0x00 })
    } else if crate::textfmt::str_eq(s, "yellow") {
        Some(Rgb { r: 0xff, g: 0xff, b: 0x00 })
    } else if crate::textfmt::str_eq(s, "navy") {
        Some(Rgb { r: 0x00, g: 0x00, b: 0x80 })
    } else if crate::textfmt::str_eq(s, "blue") {
        Some(Rgb { r: 0x00, g: 0x00, b: 0xff })
    } else if crate::textfmt::str_eq(s, "teal") {
        Some(Rgb { r: 0x00, g: 0x80, b: 0x80 })
    } else if crate::textfmt::str_eq(s, "aqua") {
        Some(Rgb { r: 0x00, g: 0xff, b: 0xff })
    } else {
        None
    }
}

/// Parse a CSS-style colour string (hex forms or a basic colour name),
/// falling back to opaque white.
pub fn parse_background_color(s: &str) -> (c: Rgb)
    ensures
        c == spec_bg_color(s@),
{
    match named_color(s) {
        Some(c) => {
            return c;
        },
        None => {},
    }
    let len = s.unicode_len();
    let white = Rgb { r: 255, g: 255, b: 255 };
    if len != 4 && len != 5 && len != 7 && len != 9 {
        proof {
            lemma_bad_shape_is_white(s@);
        }
        return white;
    }
    if s.get_char(0) != '#' {
        return white;
    }
    let mut i: usize = 1;
    let mut vals: Vec<i32> = Vec::new();
    while i < len
        invariant
            1 <= i <= len,
            len == s@.len(),
            spec_named_color(s@) is None,
            vals@.len() == i - 1,
            forall|j: int| 0 <= j < i - 1 ==> #[trigger] vals@[j] == spec_hex_val(s@[j + 1]),
            forall|j: int| 0 <= j < i - 1 ==> (-1) <= #[trigger] vals@[j] < 16,
        decreases len - i,
    {
        let v = hex_val(s.get_char(i));
        vals.push(v);
        i = i + 1;
    }
    let mut k: usize = 0;
    let n = vals.len();
    while k < n
        invariant
            k <= n,
            n == vals@.len(),
            n == s@.len() - 1,
            spec_named_color(s@) is None,
            forall|j: int| 0 <= j < n ==> #[trigger] vals@[j] == spec_hex_val(s@[j + 1]),
            forall|j: int| 0 <= j < n ==> (-1) <= #[trigger] vals@[j] < 16,
            forall|j: int| 0 <= j < k ==> #[trigger] vals@[j] >= 0,
        decreases n - k,
    {
        if vals[k] < 0 {
            proof {
                let body = s@.subrange(1, s@.len() as int);
                assert(body[k as int] == s@[k + 1]);
                assert(vals@[k as int] == spec_hex_val(s@[k + 1]));
                assert(spec_hex_val(body[k as int]) < 0);
                assert(spec_all_hex(body) ==> spec_hex_val(body[k as int]) >= 0);
                assert(!spec_all_hex(body));
                assert(spec_parse_color(s@) is None);
            }
            return Rgb { r: 255, g: 255, b: 255 };
        }
        k = k + 1;
    }
    proof {
        let body = s@.subrange(1, s@.len() as int);
        assert forall|j: int| 0 <= j < body.len() implies spec_hex_val(body[j]) >= 0 by {
            assert(body[j] == s@[j + 1]);
            assert(vals@[j] >= 0);
        }
        assert(spec_all_hex(body));
        assert forall|j: int| 0 <= j < n implies spec_hex_val(body[j]) == vals@[j] as int by {
            assert(body[j] == s@[j + 1]);
            assert(vals@[j] == spec_hex_val(s@[j + 1]));
        }
    }
    if n == 3 || n == 4 {
        Rgb { r: (17 * vals[0]) as u8, g: (17 * vals[1]) as u8, b: (17 * vals[2]) as u8 }
    } else {
        Rgb {
            r: (16 * vals[0] + vals[1]) as u8,
            g: (16 * vals[2] + vals[3]) as u8,
            b: (16 * vals[4] + vals[5]) as u8,
        }
    }
}

/// Strings that are no colour name and whose length fits no hex form
/// denote no colour.
proof fn lemma_bad_shape_is_white(s: Seq<char>)
    requires
        spec_named_color(s) is None,
        s.len() != 4,
        s.len() != 5,
        s.len() != 7,
        s.len() != 9,
    ensures
        spec_parse_color(s) is None,
{
    if s.len() >= 1 && s[0] == '#' && spec_all_hex(s.subrange(1, s.len() as int)) {
        let body = s.subrange(1, s.len() as int);
        assert(body.len() != 3 && body.len() != 4 && body.len() != 6 && body.len() != 8);
    }
}

} // verus!

