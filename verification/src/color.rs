//! 8-bit RGBA colors: construction, CSS-style hex and name parsing, hex
//! formatting and packing into ARGB words.
use vstd::prelude::*;
use vstd::string::*;
use vstd::utf8::*;
use crate::text::{
    ascii_lower_char, ascii_lowercase_chars, chars_of, is_unicode_whitespace, lowercase_chars, push_char,
    push_str, to_lowercase, trim_chars, trim_end_chars, trim_start_chars, trim_to_string,
};

verus! {

/// RGBA 8-bit color.
#[derive(Debug, Clone, Copy, PartialEq, Eq, Hash, Structural)]
pub struct Color {
    pub r: u8,
    pub g: u8,
    pub b: u8,
    pub a: u8,
}

/// The value of an ASCII hexadecimal digit, either case.
pub open spec fn hex_digit_value(b: u8) -> Option<u8> {
    if 48 <= b <= 57 {
        Some((b - 48) as u8)
    } else if 97 <= b <= 102 {
        Some((b - 87) as u8)
    } else if 65 <= b <= 70 {
        Some((b - 55) as u8)
    } else {
        None
    }
}

/// What `u8::from_str_radix(s, 16)` gives for the two-byte string `b0 b1`: a
/// leading `+` is allowed before one digit; otherwise both bytes must be
/// digits.
pub open spec fn parse_hex_pair(b0: u8, b1: u8) -> Option<u8> {
    if b0 == 43 {
        hex_digit_value(b1)
    } else {
        match (hex_digit_value(b0), hex_digit_value(b1)) {
            (Some(x), Some(y)) => Some((x * 16 + y) as u8),
            _ => None,
        }
    }
}

/// The color that 3, 4, 6 or 8 hex digits denote: `rgb`, `rgba` (each
/// digit doubled), `rrggbb` or `rrggbbaa`; `None` when a component is not a
/// valid number.
pub open spec fn color_from_hex_digits(b: Seq<u8>) -> Option<Color> {
    if b.len() == 3 || b.len() == 4 {
        let r = parse_hex_pair(b[0], b[0]);
        let g = parse_hex_pair(b[1], b[1]);
        let bl = parse_hex_pair(b[2], b[2]);
        let a = if b.len() == 4 {
            parse_hex_pair(b[3], b[3])
        } else {
            Some(255u8)
        };
        if r is Some && g is Some && bl is Some && a is Some {
            Some(Color { r: r->0, g: g->0, b: bl->0, a: a->0 })
        } else {
            None
        }
    } else {
        let r = parse_hex_pair(b[0], b[1]);
        let g = parse_hex_pair(b[2], b[3]);
        let bl = parse_hex_pair(b[4], b[5]);
        let a = if b.len() == 8 {
            parse_hex_pair(b[6], b[7])
        } else {
            Some(255u8)
        };
        if r is Some && g is Some && bl is Some && a is Some {
            Some(Color { r: r->0, g: g->0, b: bl->0, a: a->0 })
        } else {
            None
        }
    }
}

/// `s` without its leading `#` characters.
pub open spec fn strip_leading_hashes(s: Seq<char>) -> Seq<char>
    decreases s.len(),
{
    if s.len() > 0 && s[0] == '#' {
        strip_leading_hashes(s.drop_first())
    } else {
        s
    }
}

/// The CSS color names that parsing accepts besides hex digits.
pub open spec fn named_color(t: Seq<char>) -> Option<Color> {
    if t == "transparent"@ {
        Some(Color { r: 0, g: 0, b: 0, a: 0 })
    } else if t == "black"@ {
        Some(Color { r: 0, g: 0, b: 0, a: 255 })
    } else if t == "white"@ {
        Some(Color { r: 255, g: 255, b: 255, a: 255 })
    } else if t == "red"@ {
        Some(Color { r: 255, g: 0, b: 0, a: 255 })
    } else if t == "green"@ {
        Some(Color { r: 0, g: 255, b: 0, a: 255 })
    } else if t == "blue"@ {
        Some(Color { r: 0, g: 0, b: 255, a: 255 })
    } else if t == "gray"@ || t == "grey"@ {
        Some(Color { r: 128, g: 128, b: 128, a: 255 })
    } else if t == "yellow"@ {
        Some(Color { r: 255, g: 255, b: 0, a: 255 })
    } else if t == "cyan"@ {
        Some(Color { r: 0, g: 255, b: 255, a: 255 })
    } else if t == "magenta"@ {
        Some(Color { r: 255, g: 0, b: 255, a: 255 })
    } else {
        None
    }
}

/// The hex digits after the `#`s, once trimmed and lowercased, as parsing
/// treats them: 3, 4, 6 or 8 bytes of UTF-8 make a color or an invalid-digit
/// error; any other length is an invalid hex color.
pub open spec fn hex_body_result(h: Seq<char>) -> Result<Color, Seq<char>> {
    let b = encode_utf8(h);
    if b.len() == 3 || b.len() == 4 || b.len() == 6 || b.len() == 8 {
        match color_from_hex_digits(b) {
            Some(c) => Ok(c),
            None => Err("invalid digit found in string"@),
        }
    } else {
        Err("Invalid hex color: #"@ + h)
    }
}

/// The result of parsing a color from trimmed, lowercased text `t`.
pub open spec fn color_from_normalized(t: Seq<char>) -> Result<Color, Seq<char>> {
    match named_color(t) {
        Some(c) => Ok(c),
        None => hex_body_result(strip_leading_hashes(t)),
    }
}

/// The result of parsing a color from `text`.
pub open spec fn color_from_text(text: Seq<char>) -> Result<Color, Seq<char>> {
    color_from_normalized(lowercase_chars(trim_chars(text)))
}

/// Whether the byte ranges that hold the color components of `h` start and
/// end on character boundaries, which slicing them needs.
pub open spec fn hex_slices_on_char_boundaries(h: Seq<char>) -> bool {
    let b = encode_utf8(h);
    &&& (b.len() == 3 || b.len() == 4) ==> !is_continuation_byte(b[1]) && !is_continuation_byte(
        b[2],
    )
    &&& b.len() == 4 ==> !is_continuation_byte(b[3])
    &&& (b.len() == 6 || b.len() == 8) ==> !is_continuation_byte(b[2]) && !is_continuation_byte(
        b[4],
    )
    &&& b.len() == 8 ==> !is_continuation_byte(b[6])
}

/// Whether parsing the normalized text `t` slices on character boundaries.
pub open spec fn normalized_hex_is_sliceable(t: Seq<char>) -> bool {
    named_color(t) is Some || hex_slices_on_char_boundaries(strip_leading_hashes(t))
}

/// An uppercase hexadecimal digit.
pub open spec fn hex_upper_digit(n: u8) -> char {
    if n < 10 {
        (48 + n) as char
    } else {
        (55 + n) as char
    }
}

/// The two uppercase hex digits of a byte.
pub open spec fn byte_hex(v: u8) -> Seq<char> {
    seq![hex_upper_digit(v / 16), hex_upper_digit(v % 16)]
}

/// `#RRGGBB`, or `#RRGGBBAA` when the color is not opaque.
pub open spec fn hex_text(c: Color) -> Seq<char> {
    seq!['#'] + byte_hex(c.r) + byte_hex(c.g) + byte_hex(c.b) + if c.a == 255 {
        Seq::<char>::empty()
    } else {
        byte_hex(c.a)
    }
}

/// The color packed as `0xAARRGGBB`.
pub open spec fn argb_value(c: Color) -> int {
    c.a * 0x100_0000 + c.r * 0x1_0000 + c.g * 0x100 + c.b
}

fn hex_digit(b: u8) -> (v: Option<u8>)
    ensures
        v == hex_digit_value(b),
{
    if 48 <= b && b <= 57 {
        Some(b - 48)
    } else if 97 <= b && b <= 102 {
        Some(b - 87)
    } else if 65 <= b && b <= 70 {
        Some(b - 55)
    } else {
        None
    }
}

fn hex_pair(b0: u8, b1: u8) -> (v: Option<u8>)
    ensures
        v == parse_hex_pair(b0, b1),
{
    if b0 == 43 {
        hex_digit(b1)
    } else {
        match (hex_digit(b0), hex_digit(b1)) {
            (Some(x), Some(y)) => Some(x * 16 + y),
            _ => None,
        }
    }
}

fn eq_chars(cs: &Vec<char>, lit: &str) -> (b: bool)
    ensures
        b == (cs@ == lit@),
{
    let ls = chars_of(lit);
    if cs.len() != ls.len() {
        return false;
    }
    let mut i: usize = 0;
    while i < cs.len()
        invariant
            cs.len() == ls.len(),
            ls@ == lit@,
            i <= cs.len(),
            forall|j: int| 0 <= j < i ==> cs@[j] == ls@[j],
        decreases cs.len() - i,
    {
        if cs[i] != ls[i] {
            return false;
        }
        i += 1;
    }
    assert(cs@ =~= ls@);
    true
}

fn is_continuation(b: u8) -> (r: bool)
    ensures
        r == is_continuation_byte(b),
{
    0x80 <= b && b <= 0xbf
}

fn hex_char(n: u8) -> (c: char)
    requires
        n < 16,
    ensures
        c == hex_upper_digit(n),
{
    if n < 10 {
        (48 + n) as char
    } else {
        (55 + n) as char
    }
}

impl Color {
    /// Fully transparent black.
    pub fn transparent() -> (c: Color)
        ensures
            c == (Color { r: 0, g: 0, b: 0, a: 0 }),
    {
        Color { r: 0, g: 0, b: 0, a: 0 }
    }

    /// Opaque black.
    pub fn black() -> (c: Color)
        ensures
            c == (Color { r: 0, g: 0, b: 0, a: 255 }),
    {
        Color { r: 0, g: 0, b: 0, a: 255 }
    }

    /// Opaque white.
    pub fn white() -> (c: Color)
        ensures
            c == (Color { r: 255, g: 255, b: 255, a: 255 }),
    {
        Color { r: 255, g: 255, b: 255, a: 255 }
    }

    /// Opaque red.
    pub fn red() -> (c: Color)
        ensures
            c == (Color { r: 255, g: 0, b: 0, a: 255 }),
    {
        Color { r: 255, g: 0, b: 0, a: 255 }
    }

    /// Opaque green.
    pub fn green() -> (c: Color)
        ensures
            c == (Color { r: 0, g: 255, b: 0, a: 255 }),
    {
        Color { r: 0, g: 255, b: 0, a: 255 }
    }

    /// Opaque blue.
    pub fn blue() -> (c: Color)
        ensures
            c == (Color { r: 0, g: 0, b: 255, a: 255 }),
    {
        Color { r: 0, g: 0, b: 255, a: 255 }
    }

    pub fn from_rgba(r: u8, g: u8, b: u8, a: u8) -> (c: Color)
        ensures
            c == (Color { r, g, b, a }),
    {
        Color { r, g, b, a }
    }

    /// An opaque color.
    pub fn from_rgb(r: u8, g: u8, b: u8) -> (c: Color)
        ensures
            c == (Color { r, g, b, a: 255 }),
    {
        Color { r, g, b, a: 255 }
    }

    /// Parses text that is already trimmed and lowercased: a color name, or
    /// hex digits after any number of `#`.
    pub fn from_normalized_hex(t: &str) -> (res: Result<Color, String>)
        requires
            normalized_hex_is_sliceable(t@),
        ensures
            res matches Ok(c) ==> color_from_normalized(t@) == Ok::<Color, Seq<char>>(c),
            res matches Err(m) ==> color_from_normalized(t@) == Err::<Color, Seq<char>>(m@),
    {
        let cs = chars_of(t);
        if eq_chars(&cs, "transparent") {
            return Ok(Color { r: 0, g: 0, b: 0, a: 0 });
        }
        if eq_chars(&cs, "black") {
            return Ok(Color { r: 0, g: 0, b: 0, a: 255 });
        }
        if eq_chars(&cs, "white") {
            return Ok(Color { r: 255, g: 255, b: 255, a: 255 });
        }
        if eq_chars(&cs, "red") {
            return Ok(Color { r: 255, g: 0, b: 0, a: 255 });
        }
        if eq_chars(&cs, "green") {
            return Ok(Color { r: 0, g: 255, b: 0, a: 255 });
        }
        if eq_chars(&cs, "blue") {
            return Ok(Color { r: 0, g: 0, b: 255, a: 255 });
        }
        if eq_chars(&cs, "gray") || eq_chars(&cs, "grey") {
            return Ok(Color { r: 128, g: 128, b: 128, a: 255 });
        }
        if eq_chars(&cs, "yellow") {
            return Ok(Color { r: 255, g: 255, b: 0, a: 255 });
        }
        if eq_chars(&cs, "cyan") {
            return Ok(Color { r: 0, g: 255, b: 255, a: 255 });
        }
        if eq_chars(&cs, "magenta") {
            return Ok(Color { r: 255, g: 0, b: 255, a: 255 });
        }
        let n = cs.len();
        let mut k: usize = 0;
        proof {
            assert(t@.subrange(0, n as int) =~= t@);
        }
        while k < n && cs[k] == '#'
            invariant
                cs@ == t@,
                n == cs.len(),
                k <= n,
                strip_leading_hashes(t@) == strip_leading_hashes(t@.subrange(k as int, n as int)),
            decreases n - k,
        {
            proof {
                let s = t@.subrange(k as int, n as int);
                assert(s.drop_first() =~= t@.subrange(k + 1, n as int));
            }
            k += 1;
        }
        proof {
            let s = t@.subrange(k as int, n as int);
            assert(strip_leading_hashes(s) == s);
        }
        let h: &str = t.substring_char(k, n);
        let hb = h.as_bytes();
        let len = hb.len();
        proof {
            assert(h@ == strip_leading_hashes(t@));
        }
        if len == 3 || len == 4 || len == 6 || len == 8 {
            let comps = if len == 3 || len == 4 {
                let r = hex_pair(hb[0], hb[0]);
                let g = hex_pair(hb[1], hb[1]);
                let b = hex_pair(hb[2], hb[2]);
                let a = if len == 4 {
                    hex_pair(hb[3], hb[3])
                } else {
                    Some(255u8)
                };
                (r, g, b, a)
            } else {
                let r = hex_pair(hb[0], hb[1]);
                let g = hex_pair(hb[2], hb[3]);
                let b = hex_pair(hb[4], hb[5]);
                let a = if len == 8 {
                    hex_pair(hb[6], hb[7])
                } else {
                    Some(255u8)
                };
                (r, g, b, a)
            };
            match comps {
                (Some(r), Some(g), Some(b), Some(a)) => Ok(Color { r, g, b, a }),
                _ => {
                    let mut msg = String::new();
                    push_str(&mut msg, "invalid digit found in string");
                    Err(msg)
                },
            }
        } else {
            let mut msg = String::new();
            push_str(&mut msg, "Invalid hex color: #");
            push_str(&mut msg, h);
            Err(msg)
        }
    }

    /// Whether parsing `t` (trimmed and lowercased) slices the text on
    /// character boundaries.
    pub fn normalized_hex_sliceable(t: &str) -> (b: bool)
        ensures
            b == normalized_hex_is_sliceable(t@),
    {
        let cs = chars_of(t);
        if eq_chars(&cs, "transparent") || eq_chars(&cs, "black") || eq_chars(&cs, "white")
            || eq_chars(&cs, "red") || eq_chars(&cs, "green") || eq_chars(&cs, "blue") || eq_chars(
            &cs,
            "gray",
        ) || eq_chars(&cs, "grey") || eq_chars(&cs, "yellow") || eq_chars(&cs, "cyan")
            || eq_chars(&cs, "magenta") {
            return true;
        }
        let n = cs.len();
        let mut k: usize = 0;
        proof {
            assert(t@.subrange(0, n as int) =~= t@);
        }
        while k < n && cs[k] == '#'
            invariant
                cs@ == t@,
                n == cs.len(),
                k <= n,
                strip_leading_hashes(t@) == strip_leading_hashes(t@.subrange(k as int, n as int)),
            decreases n - k,
        {
            proof {
                let s = t@.subrange(k as int, n as int);
                assert(s.drop_first() =~= t@.subrange(k + 1, n as int));
            }
            k += 1;
        }
        proof {
            let s = t@.subrange(k as int, n as int);
            assert(strip_leading_hashes(s) == s);
        }
        let h: &str = t.substring_char(k, n);
        let hb = h.as_bytes();
        let len = hb.len();
        let c1 = len > 1 && is_continuation(hb[1]);
        let c2 = len > 2 && is_continuation(hb[2]);
        let c3 = len > 3 && is_continuation(hb[3]);
        let c4 = len > 4 && is_continuation(hb[4]);
        let c6 = len > 6 && is_continuation(hb[6]);
        if len == 3 {
            !c1 && !c2
        } else if len == 4 {
            !c1 && !c2 && !c3
        } else if len == 6 {
            !c2 && !c4
        } else if len == 8 {
            !c2 && !c4 && !c6
        } else {
            true
        }
    }

    /// Parses a CSS color: after trimming and lowercasing, one of the names
    /// transparent, black, white, red, green, blue, gray/grey, yellow, cyan,
    /// magenta, or `#`-prefixed hex digits in the forms `rgb`, `rgba`,
    /// `rrggbb`, `rrggbbaa`.
    ///
    /// What `to_hex` writes reads back as the same color.
    pub fn from_hex(hex: &str) -> (res: Result<Color, String>)
        requires
            normalized_hex_is_sliceable(lowercase_chars(trim_chars(hex@))) || exists|c: Color|
                #[trigger] hex_text(c) == hex@,
        ensures
            res matches Ok(c) ==> color_from_text(hex@) == Ok::<Color, Seq<char>>(c),
            res matches Err(m) ==> color_from_text(hex@) == Err::<Color, Seq<char>>(m@),
            forall|c: Color| #[trigger] hex_text(c) == hex@ ==> res == Ok::<Color, String>(c),
    {
        let trimmed = trim_to_string(hex);
        let lower = to_lowercase(trimmed.as_str());
        proof {
            if exists|c: Color| #[trigger] hex_text(c) == hex@ {
                let c = choose|c: Color| #[trigger] hex_text(c) == hex@;
                lemma_hex_text_round_trip(c);
            }
        }
        let res = Self::from_normalized_hex(lower.as_str());
        proof {
            assert forall|c: Color| #[trigger] hex_text(c) == hex@ implies res == Ok::<Color, String>(
                c,
            ) by {
                lemma_hex_text_round_trip(c);
            }
        }
        res
    }

    /// `from_hex` where the text can be sliced as parsing needs; `None` for
    /// text whose component ranges would cut a multi-byte character.
    pub fn checked_from_hex(hex: &str) -> (res: Option<Result<Color, String>>)
        ensures
            res is None <==> !normalized_hex_is_sliceable(lowercase_chars(trim_chars(hex@))),
            res matches Some(Ok(c)) ==> color_from_text(hex@) == Ok::<Color, Seq<char>>(c),
            res matches Some(Err(m)) ==> color_from_text(hex@) == Err::<Color, Seq<char>>(m@),
            forall|c: Color| #[trigger] hex_text(c) == hex@ ==> res == Some(Ok::<Color, String>(c)),
    {
        let trimmed = trim_to_string(hex);
        let lower = to_lowercase(trimmed.as_str());
        proof {
            assert forall|c: Color| #[trigger] hex_text(c) == hex@ implies normalized_hex_is_sliceable(
                lowercase_chars(trim_chars(hex@)),
            ) by {
                lemma_hex_text_round_trip(c);
            }
        }
        if Self::normalized_hex_sliceable(lower.as_str()) {
            Some(Self::from_hex(hex))
        } else {
            None
        }
    }

    /// `#RRGGBB` with uppercase digits, or `#RRGGBBAA` when alpha is not 255.
    pub fn to_hex(&self) -> (s: String)
        ensures
            s@ == hex_text(*self),
    {
        let mut s = String::new();
        push_char(&mut s, '#');
        push_char(&mut s, hex_char(self.r / 16));
        push_char(&mut s, hex_char(self.r % 16));
        push_char(&mut s, hex_char(self.g / 16));
        push_char(&mut s, hex_char(self.g % 16));
        push_char(&mut s, hex_char(self.b / 16));
        push_char(&mut s, hex_char(self.b % 16));
        if self.a != 255 {
            push_char(&mut s, hex_char(self.a / 16));
            push_char(&mut s, hex_char(self.a % 16));
        }
        proof {
            assert(s@ =~= hex_text(*self));
        }
        s
    }

    /// The color packed as `0xAARRGGBB`.
    pub fn to_argb_u32(self) -> (v: u32)
        ensures
            v == argb_value(self),
    {
        let a = self.a as u32;
        let r = self.r as u32;
        let g = self.g as u32;
        let b = self.b as u32;
        let v = (a << 24) | (r << 16) | (g << 8) | b;
        assert(v == a * 0x100_0000 + r * 0x1_0000 + g * 0x100 + b) by (bit_vector)
            requires
                a < 256,
                r < 256,
                g < 256,
                b < 256,
                v == (a << 24) | (r << 16) | (g << 8) | b,
        ;
        v
    }
}

impl Default for Color {
    /// Opaque black.
    fn default() -> (c: Color)
        ensures
            c == (Color { r: 0, g: 0, b: 0, a: 255 }),
    {
        Color { r: 0, g: 0, b: 0, a: 255 }
    }
}

proof fn lemma_hex_digit_round_trip(n: u8)
    requires
        n < 16,
    ensures
        '0' <= hex_upper_digit(n) <= 'F',
        hex_upper_digit(n) != '#',
        !is_unicode_whitespace(hex_upper_digit(n)),
        ascii_lower_char(hex_upper_digit(n)) != '#',
        (ascii_lower_char(hex_upper_digit(n)) as u32) < 128,
        (ascii_lower_char(hex_upper_digit(n)) as u8) != 43,
        hex_digit_value(ascii_lower_char(hex_upper_digit(n)) as u8) == Some(n),
{
    let d = hex_upper_digit(n);
    if n < 10 {
        assert(d as u32 == 48 + n);
    } else {
        assert(d as u32 == 55 + n);
        assert(ascii_lower_char(d) as u32 == 87 + n);
    }
}

/// What `to_hex` writes is trimmed ASCII text that, once lowercased, parses
/// back to the same color.
pub proof fn lemma_hex_text_round_trip(c: Color)
    ensures
        trim_chars(hex_text(c)) == hex_text(c),
        vstd::utf8::is_ascii_chars(hex_text(c)),
        color_from_normalized(ascii_lowercase_chars(hex_text(c))) == Ok::<Color, Seq<char>>(c),
        normalized_hex_is_sliceable(ascii_lowercase_chars(hex_text(c))),
{
    let t = hex_text(c);
    let ds: Seq<u8> = if c.a == 255 {
        seq![c.r / 16, c.r % 16, c.g / 16, c.g % 16, c.b / 16, c.b % 16]
    } else {
        seq![c.r / 16, c.r % 16, c.g / 16, c.g % 16, c.b / 16, c.b % 16, c.a / 16, c.a % 16]
    };
    assert(t =~= seq!['#'] + Seq::new(ds.len(), |i: int| hex_upper_digit(ds[i])));
    assert forall|i: int| 0 <= i < ds.len() implies #[trigger] ds[i] < 16 by {}
    assert forall|i: int| 0 <= i < ds.len() implies {
        let d = hex_upper_digit(#[trigger] ds[i]);
        &&& '0' <= d <= 'F'
        &&& d != '#'
        &&& !is_unicode_whitespace(d)
        &&& ascii_lower_char(d) != '#'
        &&& (ascii_lower_char(d) as u32) < 128
        &&& (ascii_lower_char(d) as u8) != 43
        &&& hex_digit_value(ascii_lower_char(d) as u8) == Some(ds[i])
    } by {
        lemma_hex_digit_round_trip(ds[i]);
    }
    // trimming changes nothing: the text starts with `#` and ends with a digit
    assert(!is_unicode_whitespace(t[0]));
    assert(trim_start_chars(t) == t);
    assert(t.last() == t[t.len() - 1]);
    assert(t[t.len() - 1] == hex_upper_digit(ds[ds.len() - 1]));
    assert(trim_end_chars(t) == t);
    assert(vstd::utf8::is_ascii_chars(t)) by {
        assert forall|i: int| 0 <= i < t.len() implies '\0' <= #[trigger] t[i] <= '\u{7f}' by {
            if i > 0 {
                assert(t[i] == hex_upper_digit(ds[i - 1]));
            }
        }
    }
    let lower = ascii_lowercase_chars(t);
    let body = lower.drop_first();
    assert(lower[0] == '#');
    assert forall|i: int| 0 <= i < body.len() implies #[trigger] body[i] == ascii_lower_char(
        hex_upper_digit(ds[i]),
    ) by {
        assert(body[i] == lower[i + 1]);
        assert(t[i + 1] == hex_upper_digit(ds[i]));
    }
    // no color name starts with `#`
    reveal_strlit("transparent");
    reveal_strlit("black");
    reveal_strlit("white");
    reveal_strlit("red");
    reveal_strlit("green");
    reveal_strlit("blue");
    reveal_strlit("gray");
    reveal_strlit("grey");
    reveal_strlit("yellow");
    reveal_strlit("cyan");
    reveal_strlit("magenta");
    assert(named_color(lower) is None) by {
        assert(lower[0] != "transparent"@[0]);
        assert(lower[0] != "black"@[0]);
        assert(lower[0] != "white"@[0]);
        assert(lower[0] != "red"@[0]);
        assert(lower[0] != "green"@[0]);
        assert(lower[0] != "blue"@[0]);
        assert(lower[0] != "gray"@[0]);
        assert(lower[0] != "grey"@[0]);
        assert(lower[0] != "yellow"@[0]);
        assert(lower[0] != "cyan"@[0]);
        assert(lower[0] != "magenta"@[0]);
    }
    assert(strip_leading_hashes(lower) == strip_leading_hashes(body));
    assert(body[0] != '#');
    assert(strip_leading_hashes(body) == body);
    assert(vstd::utf8::is_ascii_chars(body)) by {
        assert forall|i: int| 0 <= i < body.len() implies '\0' <= #[trigger] body[i] <= '\u{7f}' by {
            assert(body[i] == ascii_lower_char(hex_upper_digit(ds[i])));
        }
    }
    vstd::utf8::is_ascii_chars_encode_utf8(body);
    let b = encode_utf8(body);
    assert forall|i: int| 0 <= i < b.len() implies #[trigger] b[i] == ascii_lower_char(
        hex_upper_digit(ds[i]),
    ) as u8 && !is_continuation_byte(b[i]) by {
        assert(body[i] as u8 == b[i]);
    }
    assert(hex_slices_on_char_boundaries(body));
    assert forall|k: int| 0 <= k < ds.len() / 2 implies parse_hex_pair(b[2 * k], b[2 * k + 1])
        == Some((#[trigger] ds[2 * k] * 16 + ds[2 * k + 1]) as u8) by {
        assert(b[2 * k] == ascii_lower_char(hex_upper_digit(ds[2 * k])) as u8);
        assert(b[2 * k + 1] == ascii_lower_char(hex_upper_digit(ds[2 * k + 1])) as u8);
    }
    assert(c.r / 16 * 16 + c.r % 16 == c.r);
    assert(c.g / 16 * 16 + c.g % 16 == c.g);
    assert(c.b / 16 * 16 + c.b % 16 == c.b);
    assert(c.a / 16 * 16 + c.a % 16 == c.a);
    assert(ds[0] * 16 + ds[1] == c.r);
    assert(ds[2] * 16 + ds[3] == c.g);
    assert(ds[4] * 16 + ds[5] == c.b);
    if c.a != 255 {
        assert(ds[6] * 16 + ds[7] == c.a);
    }
}

/// The color names that parsing accepts, each with the RGBA value it stands for.
pub open spec fn css_color_names() -> Seq<(Seq<char>, Color)> {
    seq![
        ("transparent"@, Color { r: 0, g: 0, b: 0, a: 0 }),
        ("black"@, Color { r: 0, g: 0, b: 0, a: 255 }),
        ("white"@, Color { r: 255, g: 255, b: 255, a: 255 }),
        ("red"@, Color { r: 255, g: 0, b: 0, a: 255 }),
        ("green"@, Color { r: 0, g: 255, b: 0, a: 255 }),
        ("blue"@, Color { r: 0, g: 0, b: 255, a: 255 }),
        ("gray"@, Color { r: 128, g: 128, b: 128, a: 255 }),
        ("grey"@, Color { r: 128, g: 128, b: 128, a: 255 }),
        ("yellow"@, Color { r: 255, g: 255, b: 0, a: 255 }),
        ("cyan"@, Color { r: 0, g: 255, b: 255, a: 255 }),
        ("magenta"@, Color { r: 255, g: 0, b: 255, a: 255 }),
    ]
}

/// Each accepted color name parses to the color the name table gives it, and no name outside the table is accepted.
pub proof fn law_named_colors(t: Seq<char>)
    ensures
        forall|i: int|
            #![trigger css_color_names()[i]]
            0 <= i < css_color_names().len() ==> named_color(css_color_names()[i].0) == Some(css_color_names()[i].1),
        named_color(t) is Some ==> exists|i: int|
            #![trigger css_color_names()[i]]
            0 <= i < css_color_names().len() && css_color_names()[i].0 == t && Some(css_color_names()[i].1) == named_color(t),
        forall|i: int|
            #![trigger css_color_names()[i]]
            0 <= i < css_color_names().len() ==> color_from_normalized(css_color_names()[i].0) == Ok::<Color, Seq<char>>(css_color_names()[i].1),
{
    reveal_strlit("transparent");
    reveal_strlit("black");
    reveal_strlit("white");
    reveal_strlit("red");
    reveal_strlit("green");
    reveal_strlit("blue");
    reveal_strlit("gray");
    reveal_strlit("grey");
    reveal_strlit("yellow");
    reveal_strlit("cyan");
    reveal_strlit("magenta");
    assert("transparent"@.len() != "black"@.len());
    assert("transparent"@.len() != "white"@.len());
    assert("transparent"@.len() != "red"@.len());
    assert("transparent"@.len() != "green"@.len());
    assert("transparent"@.len() != "blue"@.len());
    assert("transparent"@.len() != "gray"@.len());
    assert("transparent"@.len() != "grey"@.len());
    assert("transparent"@.len() != "yellow"@.len());
    assert("transparent"@.len() != "cyan"@.len());
    assert("transparent"@.len() != "magenta"@.len());
    assert("black"@[0] != "white"@[0]);
    assert("black"@.len() != "red"@.len());
    assert("black"@[0] != "green"@[0]);
    assert("black"@.len() != "blue"@.len());
    assert("black"@.len() != "gray"@.len());
    assert("black"@.len() != "grey"@.len());
    assert("black"@.len() != "yellow"@.len());
    assert("black"@.len() != "cyan"@.len());
    assert("black"@.len() != "magenta"@.len());
    assert("white"@.len() != "red"@.len());
    assert("white"@[0] != "green"@[0]);
    assert("white"@.len() != "blue"@.len());
    assert("white"@.len() != "gray"@.len());
    assert("white"@.len() != "grey"@.len());
    assert("white"@.len() != "yellow"@.len());
    assert("white"@.len() != "cyan"@.len());
    assert("white"@.len() != "magenta"@.len());
    assert("red"@.len() != "green"@.len());
    assert("red"@.len() != "blue"@.len());
    assert("red"@.len() != "gray"@.len());
    assert("red"@.len() != "grey"@.len());
    assert("red"@.len() != "yellow"@.len());
    assert("red"@.len() != "cyan"@.len());
    assert("red"@.len() != "magenta"@.len());
    assert("green"@.len() != "blue"@.len());
    assert("green"@.len() != "gray"@.len());
    assert("green"@.len() != "grey"@.len());
    assert("green"@.len() != "yellow"@.len());
    assert("green"@.len() != "cyan"@.len());
    assert("green"@.len() != "magenta"@.len());
    assert("blue"@[0] != "gray"@[0]);
    assert("blue"@[0] != "grey"@[0]);
    assert("blue"@.len() != "yellow"@.len());
    assert("blue"@[0] != "cyan"@[0]);
    assert("blue"@.len() != "magenta"@.len());
    assert("gray"@[2] != "grey"@[2]);
    assert("gray"@.len() != "yellow"@.len());
    assert("gray"@[0] != "cyan"@[0]);
    assert("gray"@.len() != "magenta"@.len());
    assert("grey"@.len() != "yellow"@.len());
    assert("grey"@[0] != "cyan"@[0]);
    assert("grey"@.len() != "magenta"@.len());
    assert("yellow"@.len() != "cyan"@.len());
    assert("yellow"@.len() != "magenta"@.len());
    assert("cyan"@.len() != "magenta"@.len());
    let tbl = css_color_names();
    assert(tbl.len() == 11);
    assert forall|i: int| 0 <= i < tbl.len() implies #[trigger] named_color(tbl[i].0) == Some(tbl[i].1) by {
        if i == 0 {
            assert(tbl[0] == ("transparent"@, Color { r: 0, g: 0, b: 0, a: 0 }));
            assert(named_color("transparent"@) == Some(Color { r: 0, g: 0, b: 0, a: 0 }));
        } else if i == 1 {
            assert(tbl[1] == ("black"@, Color { r: 0, g: 0, b: 0, a: 255 }));
            assert(named_color("black"@) == Some(Color { r: 0, g: 0, b: 0, a: 255 }));
        } else if i == 2 {
            assert(tbl[2] == ("white"@, Color { r: 255, g: 255, b: 255, a: 255 }));
            assert(named_color("white"@) == Some(Color { r: 255, g: 255, b: 255, a: 255 }));
        } else if i == 3 {
            assert(tbl[3] == ("red"@, Color { r: 255, g: 0, b: 0, a: 255 }));
            assert(named_color("red"@) == Some(Color { r: 255, g: 0, b: 0, a: 255 }));
        } else if i == 4 {
            assert(tbl[4] == ("green"@, Color { r: 0, g: 255, b: 0, a: 255 }));
            assert(named_color("green"@) == Some(Color { r: 0, g: 255, b: 0, a: 255 }));
        } else if i == 5 {
            assert(tbl[5] == ("blue"@, Color { r: 0, g: 0, b: 255, a: 255 }));
            assert(named_color("blue"@) == Some(Color { r: 0, g: 0, b: 255, a: 255 }));
        } else if i == 6 {
            assert(tbl[6] == ("gray"@, Color { r: 128, g: 128, b: 128, a: 255 }));
            assert(named_color("gray"@) == Some(Color { r: 128, g: 128, b: 128, a: 255 }));
        } else if i == 7 {
            assert(tbl[7] == ("grey"@, Color { r: 128, g: 128, b: 128, a: 255 }));
            assert(named_color("grey"@) == Some(Color { r: 128, g: 128, b: 128, a: 255 }));
        } else if i == 8 {
            assert(tbl[8] == ("yellow"@, Color { r: 255, g: 255, b: 0, a: 255 }));
            assert(named_color("yellow"@) == Some(Color { r: 255, g: 255, b: 0, a: 255 }));
        } else if i == 9 {
            assert(tbl[9] == ("cyan"@, Color { r: 0, g: 255, b: 255, a: 255 }));
            assert(named_color("cyan"@) == Some(Color { r: 0, g: 255, b: 255, a: 255 }));
        } else if i == 10 {
            assert(tbl[10] == ("magenta"@, Color { r: 255, g: 0, b: 255, a: 255 }));
            assert(named_color("magenta"@) == Some(Color { r: 255, g: 0, b: 255, a: 255 }));
        }
    }
    if t == "transparent"@ {
        assert(tbl[0] == ("transparent"@, Color { r: 0, g: 0, b: 0, a: 0 }));
    } else if t == "black"@ {
        assert(tbl[1] == ("black"@, Color { r: 0, g: 0, b: 0, a: 255 }));
    } else if t == "white"@ {
        assert(tbl[2] == ("white"@, Color { r: 255, g: 255, b: 255, a: 255 }));
    } else if t == "red"@ {
        assert(tbl[3] == ("red"@, Color { r: 255, g: 0, b: 0, a: 255 }));
    } else if t == "green"@ {
        assert(tbl[4] == ("green"@, Color { r: 0, g: 255, b: 0, a: 255 }));
    } else if t == "blue"@ {
        assert(tbl[5] == ("blue"@, Color { r: 0, g: 0, b: 255, a: 255 }));
    } else if t == "gray"@ {
        assert(tbl[6] == ("gray"@, Color { r: 128, g: 128, b: 128, a: 255 }));
    } else if t == "grey"@ {
        assert(tbl[7] == ("grey"@, Color { r: 128, g: 128, b: 128, a: 255 }));
    } else if t == "yellow"@ {
        assert(tbl[8] == ("yellow"@, Color { r: 255, g: 255, b: 0, a: 255 }));
    } else if t == "cyan"@ {
        assert(tbl[9] == ("cyan"@, Color { r: 0, g: 255, b: 255, a: 255 }));
    } else if t == "magenta"@ {
        assert(tbl[10] == ("magenta"@, Color { r: 255, g: 0, b: 255, a: 255 }));
    }
}

/// The hex digit byte of a value below 16, lowercase or uppercase.
pub open spec fn hex_digit_byte(d: u8, upper: bool) -> u8 {
    if d < 10 {
        (48 + d) as u8
    } else if upper {
        (55 + d) as u8
    } else {
        (87 + d) as u8
    }
}

proof fn lemma_hex_digit_byte(d: u8, upper: bool)
    requires
        d < 16,
    ensures
        hex_digit_value(hex_digit_byte(d, upper)) == Some(d),
        hex_digit_byte(d, upper) != 43,
{
}

/// Hex digits, in either case, denote the components left to right: six
/// digits are red, green and blue, two each with the high digit first; eight
/// add alpha; three and four are the short forms, where each digit stands for
/// a pair of itself (`f` is 255); alpha is 255 when not given.
pub proof fn law_hex_digits_denote_components(d: Seq<u8>, upper: bool)
    requires
        forall|i: int| 0 <= i < d.len() ==> d[i] < 16,
    ensures
        ({
            let b = Seq::new(d.len(), |i: int| hex_digit_byte(d[i], upper));
            &&& d.len() == 6 ==> color_from_hex_digits(b) == Some(
                Color {
                    r: (d[0] * 16 + d[1]) as u8,
                    g: (d[2] * 16 + d[3]) as u8,
                    b: (d[4] * 16 + d[5]) as u8,
                    a: 255,
                },
            )
            &&& d.len() == 8 ==> color_from_hex_digits(b) == Some(
                Color {
                    r: (d[0] * 16 + d[1]) as u8,
                    g: (d[2] * 16 + d[3]) as u8,
                    b: (d[4] * 16 + d[5]) as u8,
                    a: (d[6] * 16 + d[7]) as u8,
                },
            )
            &&& d.len() == 3 ==> color_from_hex_digits(b) == Some(
                Color { r: (d[0] * 17) as u8, g: (d[1] * 17) as u8, b: (d[2] * 17) as u8, a: 255 },
            )
            &&& d.len() == 4 ==> color_from_hex_digits(b) == Some(
                Color {
                    r: (d[0] * 17) as u8,
                    g: (d[1] * 17) as u8,
                    b: (d[2] * 17) as u8,
                    a: (d[3] * 17) as u8,
                },
            )
        }),
{
    let b = Seq::new(d.len(), |i: int| hex_digit_byte(d[i], upper));
    assert forall|i: int| 0 <= i < d.len() implies hex_digit_value(#[trigger] b[i]) == Some(d[i])
        && b[i] != 43 by {
        lemma_hex_digit_byte(d[i], upper);
    }
}

/// The packed word holds alpha, red, green and blue as its four bytes, from
/// the most significant down.
pub proof fn law_argb_bytes(c: Color)
    ensures
        argb_value(c) / 0x100_0000 == c.a,
        argb_value(c) / 0x1_0000 % 0x100 == c.r,
        argb_value(c) / 0x100 % 0x100 == c.g,
        argb_value(c) % 0x100 == c.b,
{
    let v = argb_value(c);
    assert(v == c.a * 0x100_0000 + c.r * 0x1_0000 + c.g * 0x100 + c.b);
    assert(v / 0x100_0000 == c.a) by (nonlinear_arith)
        requires
            v == c.a * 0x100_0000 + c.r * 0x1_0000 + c.g * 0x100 + c.b,
            c.r < 256,
            c.g < 256,
            c.b < 256,
    ;
    assert(v / 0x1_0000 == c.a * 0x100 + c.r) by (nonlinear_arith)
        requires
            v == c.a * 0x100_0000 + c.r * 0x1_0000 + c.g * 0x100 + c.b,
            c.g < 256,
            c.b < 256,
    ;
    assert((c.a * 0x100 + c.r) % 0x100 == c.r as int) by (nonlinear_arith)
        requires
            c.r < 256,
    ;
    assert(v / 0x100 == c.a * 0x1_0000 + c.r * 0x100 + c.g) by (nonlinear_arith)
        requires
            v == c.a * 0x100_0000 + c.r * 0x1_0000 + c.g * 0x100 + c.b,
            c.b < 256,
    ;
    assert((c.a * 0x1_0000 + c.r * 0x100 + c.g) % 0x100 == c.g as int) by (nonlinear_arith)
        requires
            c.g < 256,
    ;
    assert(v % 0x100 == c.b as int) by (nonlinear_arith)
        requires
            v == c.a * 0x100_0000 + c.r * 0x1_0000 + c.g * 0x100 + c.b,
            c.b < 256,
    ;
}

/// Any number of `#` before the hex digits is read as one: an extra `#`
/// changes nothing.
pub proof fn law_extra_hashes(t: Seq<char>)
    ensures
        color_from_normalized(seq!['#', '#'] + t) == color_from_normalized(seq!['#'] + t),
{
    let a = seq!['#', '#'] + t;
    let b = seq!['#'] + t;
    assert(a[0] == '#');
    assert(a.drop_first() =~= b);
    law_named_colors(a);
    law_named_colors(b);
    let tbl = css_color_names();
    if named_color(a) is Some {
        let i = choose|i: int| #![trigger tbl[i]] 0 <= i < tbl.len() && tbl[i].0 == a && Some(tbl[i].1) == named_color(a);
        assert(tbl[i].0[0] != '#') by {
            law_named_color_initials(i);
        }
    }
    if named_color(b) is Some {
        let i = choose|i: int| #![trigger tbl[i]] 0 <= i < tbl.len() && tbl[i].0 == b && Some(tbl[i].1) == named_color(b);
        assert(tbl[i].0[0] != '#') by {
            law_named_color_initials(i);
        }
    }
}

proof fn law_named_color_initials(i: int)
    requires
        0 <= i < css_color_names().len(),
    ensures
        css_color_names()[i].0.len() > 0 && css_color_names()[i].0[0] != '#',
{
    reveal_strlit("transparent");
    reveal_strlit("black");
    reveal_strlit("white");
    reveal_strlit("red");
    reveal_strlit("green");
    reveal_strlit("blue");
    reveal_strlit("gray");
    reveal_strlit("grey");
    reveal_strlit("yellow");
    reveal_strlit("cyan");
    reveal_strlit("magenta");
    let tbl = css_color_names();
    if i == 0 {} else if i == 1 {} else if i == 2 {} else if i == 3 {} else if i == 4 {} else if i == 5 {} else if i == 6 {} else if i == 7 {} else if i == 8 {} else if i == 9 {} else {}
}

} // verus!
