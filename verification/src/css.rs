//! The text layer of the style sheet language: splitting a sheet into
//! `selector { body }` blocks, a body into `name: value` declarations, and
//! reading the keyword and integer property values.
use vstd::prelude::*;
use vstd::utf8::*;
use crate::property::{AlignItems, FlexDirection, JustifyContent, TextAlignment};
use crate::text::{
    all_decimal_digits, chars_of, first_char_index, is_unicode_whitespace, lemma_first_char_index, lemma_first_char_index_bounds, trim_end_chars, trim_start_chars, lemma_split_at_ascii,
    parse_u64_chars, parse_u64_range, split_once_byte, str_eq, string_from_chars, trim_chars,
    trim_to_string,
};

verus! {

/// A list of string pairs as character sequences.
pub open spec fn pairs_text(pairs: Seq<(String, String)>) -> Seq<(Seq<char>, Seq<char>)> {
    Seq::new(pairs.len(), |i: int| (pairs[i].0@, pairs[i].1@))
}

/// The one-element sequence of a present value, or the empty one.
pub open spec fn present<A>(o: Option<A>) -> Seq<A> {
    match o {
        Some(x) => seq![x],
        None => Seq::empty(),
    }
}

/// The `(name, value)` of one declaration: both sides of its first colon,
/// trimmed; a blank piece or one without a colon declares nothing.
pub open spec fn declaration(piece: Seq<char>) -> Option<(Seq<char>, Seq<char>)> {
    let d = trim_chars(piece);
    if d.len() == 0 {
        None
    } else {
        match first_char_index(d, ':') {
            Some(k) => Some((trim_chars(d.take(k)), trim_chars(d.skip(k + 1)))),
            None => None,
        }
    }
}

/// The declarations of a style body: the pieces between semicolons, in order.
pub open spec fn declarations(body: Seq<char>) -> Seq<(Seq<char>, Seq<char>)>
    decreases body.len(),
{
    if body.len() == 0 {
        Seq::empty()
    } else {
        match first_char_index(body, ';') {
            Some(k) => {
                proof {
                    lemma_first_char_index_bounds(body, ';');
                }
                present(declaration(body.take(k))) + declarations(body.skip(k + 1))
            },
            None => present(declaration(body)),
        }
    }
}

/// The `selector { body }` blocks of a style sheet, in order: each selector
/// is the trimmed text before a `{`, each body the trimmed text up to the
/// next `}`; a block with an empty selector is skipped, and reading stops at
/// a `{` or `}` that is missing.
pub open spec fn style_blocks(css: Seq<char>) -> Seq<(Seq<char>, Seq<char>)>
    decreases css.len(),
{
    if css.len() == 0 {
        Seq::empty()
    } else {
        match first_char_index(css, '{') {
            None => Seq::empty(),
            Some(o) => {
                proof {
                    lemma_first_char_index_bounds(css, '{');
                }
                let selector = trim_chars(css.take(o));
                let after = css.skip(o + 1);
                match first_char_index(after, '}') {
                    None => Seq::empty(),
                    Some(c) => {
                        proof {
                            lemma_first_char_index_bounds(after, '}');
                        }
                        let block = if selector.len() == 0 {
                            Seq::empty()
                        } else {
                            seq![(selector, trim_chars(after.take(c)))]
                        };
                        block + style_blocks(after.skip(c + 1))
                    },
                }
            },
        }
    }
}

/// Splits `s` at its first `c`, found with `memchr` on its bytes.
fn split_at_char<'a>(s: &'a str, c: u8) -> (r: Option<(&'a str, &'a str)>)
    requires
        c < 128,
    ensures
        match first_char_index(s@, c as char) {
            Some(k) => r matches Some((a, b)) && a@ == s@.take(k) && b@ == s@.skip(k + 1),
            None => r is None,
        },
{
    let n = s.as_bytes().len();
    proof {
        assert((c as char) as u8 == c && ((c as char) as u32) < 128) by {
            assert(c < 128 ==> ((c as u32) as u8) == c) by (bit_vector);
        }
        lemma_split_at_ascii(s@, c as char);
    }
    split_once_byte(s, c)
}

/// The `(name, value)` of one declaration, as `declaration` says.
fn declaration_of(piece: &str) -> (r: Option<(String, String)>)
    ensures
        match declaration(piece@) {
            Some((k, v)) => r matches Some((a, b)) && a@ == k && b@ == v,
            None => r is None,
        },
{
    let d = trim_to_string(piece);
    if d.as_str().is_empty() {
        return None;
    }
    match split_at_char(d.as_str(), 58) {
        Some((k, v)) => Some((trim_to_string(k), trim_to_string(v))),
        None => None,
    }
}

/// The declarations of a style body such as `padding: 8px; color: #fff`,
/// split at each `;` and then at the first `:`, both sides trimmed.
pub fn parse_declarations(body: &str) -> (r: Vec<(String, String)>)
    ensures
        pairs_text(r@) == declarations(body@),
{
    let mut out: Vec<(String, String)> = Vec::new();
    let mut rest: &str = body;
    proof {
        assert(pairs_text(out@) + declarations(rest@) =~= declarations(body@));
    }
    while !rest.is_empty()
        invariant
            pairs_text(out@) + declarations(rest@) == declarations(body@),
        decreases rest@.len(),
    {
        let ghost before = out@;
        let ghost r0 = rest@;
        match split_at_char(rest, 59) {
            Some((piece, after)) => {
                let d = declaration_of(piece);
                if let Some(pair) = d {
                    out.push(pair);
                }
                proof {
                    lemma_first_char_index_bounds(r0, ';');
                    assert(pairs_text(out@) =~= pairs_text(before) + present(declaration(piece@)));
                }
                rest = after;
            },
            None => {
                let d = declaration_of(rest);
                if let Some(pair) = d {
                    out.push(pair);
                }
                proof {
                    assert(pairs_text(out@) =~= pairs_text(before) + present(declaration(r0)));
                    assert(declarations(""@) =~= Seq::<(Seq<char>, Seq<char>)>::empty()) by {
                        reveal_strlit("");
                    }
                }
                proof {
                    reveal_strlit("");
                }
                rest = "";
            },
        }
    }
    proof {
        assert(pairs_text(out@) + declarations(rest@) =~= pairs_text(out@));
    }
    out
}

/// The `selector { body }` blocks of a style sheet, as `style_blocks` says.
pub fn split_style_blocks(css: &str) -> (r: Vec<(String, String)>)
    ensures
        pairs_text(r@) == style_blocks(css@),
{
    let mut out: Vec<(String, String)> = Vec::new();
    let mut rest: &str = css;
    proof {
        assert(pairs_text(out@) + style_blocks(rest@) =~= style_blocks(css@));
    }
    while !rest.is_empty()
        invariant
            pairs_text(out@) + style_blocks(rest@) == style_blocks(css@),
        decreases rest@.len(),
    {
        let ghost before = out@;
        let ghost r0 = rest@;
        match split_at_char(rest, 123) {
            None => {
                proof {
                    assert(pairs_text(out@) + style_blocks(""@) =~= pairs_text(out@) + style_blocks(r0)) by {
                        reveal_strlit("");
                    }
                }
                proof {
                    reveal_strlit("");
                }
                rest = "";
            },
            Some((head, after)) => {
                proof {
                    lemma_first_char_index_bounds(r0, '{');
                }
                match split_at_char(after, 125) {
                    None => {
                        proof {
                            assert(pairs_text(out@) + style_blocks(""@) =~= pairs_text(out@)
                                + style_blocks(r0)) by {
                                reveal_strlit("");
                            }
                        }
                        proof {
                    reveal_strlit("");
                }
                rest = "";
                    },
                    Some((body, tail)) => {
                        proof {
                            lemma_first_char_index_bounds(after@, '}');
                        }
                        let selector = trim_to_string(head);
                        if !selector.as_str().is_empty() {
                            let b = trim_to_string(body);
                            out.push((selector, b));
                        }
                        proof {
                            let sel = trim_chars(head@);
                            let block = if sel.len() == 0 {
                                Seq::empty()
                            } else {
                                seq![(sel, trim_chars(body@))]
                            };
                            assert(pairs_text(out@) =~= pairs_text(before) + block);
                        }
                        rest = tail;
                    },
                }
            },
        }
    }
    proof {
        assert(pairs_text(out@) + style_blocks(rest@) =~= pairs_text(out@));
    }
    out
}

/// The style properties the sheet language knows, by name.
#[derive(Debug, Clone, Copy, PartialEq, Eq, Structural)]
pub enum CssProperty {
    Width,
    Height,
    MinWidth,
    MinHeight,
    MaxWidth,
    MaxHeight,
    Padding,
    Margin,
    FlexDirection,
    JustifyContent,
    AlignItems,
    Gap,
    BackgroundColor,
    TextColor,
    BorderColor,
    BorderWidth,
    BorderRadius,
    Opacity,
    FontFamily,
    FontSize,
    FontWeight,
    TextAlign,
    /// A name the language does not know; the declaration is ignored.
    Unknown,
}

/// The property a declaration name stands for; names are matched exactly.
pub open spec fn css_property(name: Seq<char>) -> CssProperty {
    if name == "width"@ {
        CssProperty::Width
    } else if name == "height"@ {
        CssProperty::Height
    } else if name == "min-width"@ {
        CssProperty::MinWidth
    } else if name == "min-height"@ {
        CssProperty::MinHeight
    } else if name == "max-width"@ {
        CssProperty::MaxWidth
    } else if name == "max-height"@ {
        CssProperty::MaxHeight
    } else if name == "padding"@ {
        CssProperty::Padding
    } else if name == "margin"@ {
        CssProperty::Margin
    } else if name == "flex-direction"@ {
        CssProperty::FlexDirection
    } else if name == "justify-content"@ {
        CssProperty::JustifyContent
    } else if name == "align-items"@ {
        CssProperty::AlignItems
    } else if name == "gap"@ {
        CssProperty::Gap
    } else if name == "background"@ || name == "background-color"@ {
        CssProperty::BackgroundColor
    } else if name == "color"@ || name == "text-color"@ {
        CssProperty::TextColor
    } else if name == "border-color"@ {
        CssProperty::BorderColor
    } else if name == "border-width"@ {
        CssProperty::BorderWidth
    } else if name == "border-radius"@ {
        CssProperty::BorderRadius
    } else if name == "opacity"@ {
        CssProperty::Opacity
    } else if name == "font-family"@ {
        CssProperty::FontFamily
    } else if name == "font-size"@ {
        CssProperty::FontSize
    } else if name == "font-weight"@ {
        CssProperty::FontWeight
    } else if name == "text-align"@ {
        CssProperty::TextAlign
    } else {
        CssProperty::Unknown
    }
}

/// The property a declaration name stands for.
pub fn property_named(name: &str) -> (p: CssProperty)
    ensures
        p == css_property(name@),
{
    if str_eq(name, "width") {
        CssProperty::Width
    } else if str_eq(name, "height") {
        CssProperty::Height
    } else if str_eq(name, "min-width") {
        CssProperty::MinWidth
    } else if str_eq(name, "min-height") {
        CssProperty::MinHeight
    } else if str_eq(name, "max-width") {
        CssProperty::MaxWidth
    } else if str_eq(name, "max-height") {
        CssProperty::MaxHeight
    } else if str_eq(name, "padding") {
        CssProperty::Padding
    } else if str_eq(name, "margin") {
        CssProperty::Margin
    } else if str_eq(name, "flex-direction") {
        CssProperty::FlexDirection
    } else if str_eq(name, "justify-content") {
        CssProperty::JustifyContent
    } else if str_eq(name, "align-items") {
        CssProperty::AlignItems
    } else if str_eq(name, "gap") {
        CssProperty::Gap
    } else if str_eq(name, "background") || str_eq(name, "background-color") {
        CssProperty::BackgroundColor
    } else if str_eq(name, "color") || str_eq(name, "text-color") {
        CssProperty::TextColor
    } else if str_eq(name, "border-color") {
        CssProperty::BorderColor
    } else if str_eq(name, "border-width") {
        CssProperty::BorderWidth
    } else if str_eq(name, "border-radius") {
        CssProperty::BorderRadius
    } else if str_eq(name, "opacity") {
        CssProperty::Opacity
    } else if str_eq(name, "font-family") {
        CssProperty::FontFamily
    } else if str_eq(name, "font-size") {
        CssProperty::FontSize
    } else if str_eq(name, "font-weight") {
        CssProperty::FontWeight
    } else if str_eq(name, "text-align") {
        CssProperty::TextAlign
    } else {
        CssProperty::Unknown
    }
}

/// The `flex-direction` keyword `value` names, if any.
pub open spec fn flex_direction_keyword(value: Seq<char>) -> Option<FlexDirection> {
    if value == "row"@ {
        Some(FlexDirection::Row)
    } else if value == "column"@ {
        Some(FlexDirection::Column)
    } else if value == "row-reverse"@ {
        Some(FlexDirection::RowReverse)
    } else if value == "column-reverse"@ {
        Some(FlexDirection::ColumnReverse)
    } else {
        None
    }
}

/// The `flex-direction` keyword `value` names, if any.
pub fn flex_direction_named(value: &str) -> (r: Option<FlexDirection>)
    ensures
        r == flex_direction_keyword(value@),
{
    if str_eq(value, "row") {
        Some(FlexDirection::Row)
    } else if str_eq(value, "column") {
        Some(FlexDirection::Column)
    } else if str_eq(value, "row-reverse") {
        Some(FlexDirection::RowReverse)
    } else if str_eq(value, "column-reverse") {
        Some(FlexDirection::ColumnReverse)
    } else {
        None
    }
}

/// The `justify-content` keyword `value` names, if any.
pub open spec fn justify_content_keyword(value: Seq<char>) -> Option<JustifyContent> {
    if value == "flex-start"@ || value == "start"@ {
        Some(JustifyContent::FlexStart)
    } else if value == "center"@ {
        Some(JustifyContent::Center)
    } else if value == "flex-end"@ || value == "end"@ {
        Some(JustifyContent::FlexEnd)
    } else if value == "space-between"@ {
        Some(JustifyContent::SpaceBetween)
    } else if value == "space-around"@ {
        Some(JustifyContent::SpaceAround)
    } else if value == "space-evenly"@ {
        Some(JustifyContent::SpaceEvenly)
    } else {
        None
    }
}

/// The `justify-content` keyword `value` names, if any.
pub fn justify_content_named(value: &str) -> (r: Option<JustifyContent>)
    ensures
        r == justify_content_keyword(value@),
{
    if str_eq(value, "flex-start") || str_eq(value, "start") {
        Some(JustifyContent::FlexStart)
    } else if str_eq(value, "center") {
        Some(JustifyContent::Center)
    } else if str_eq(value, "flex-end") || str_eq(value, "end") {
        Some(JustifyContent::FlexEnd)
    } else if str_eq(value, "space-between") {
        Some(JustifyContent::SpaceBetween)
    } else if str_eq(value, "space-around") {
        Some(JustifyContent::SpaceAround)
    } else if str_eq(value, "space-evenly") {
        Some(JustifyContent::SpaceEvenly)
    } else {
        None
    }
}

/// The `align-items` keyword `value` names, if any.
pub open spec fn align_items_keyword(value: Seq<char>) -> Option<AlignItems> {
    if value == "flex-start"@ || value == "start"@ {
        Some(AlignItems::FlexStart)
    } else if value == "center"@ {
        Some(AlignItems::Center)
    } else if value == "flex-end"@ || value == "end"@ {
        Some(AlignItems::FlexEnd)
    } else if value == "stretch"@ {
        Some(AlignItems::Stretch)
    } else if value == "baseline"@ {
        Some(AlignItems::Baseline)
    } else {
        None
    }
}

/// The `align-items` keyword `value` names, if any.
pub fn align_items_named(value: &str) -> (r: Option<AlignItems>)
    ensures
        r == align_items_keyword(value@),
{
    if str_eq(value, "flex-start") || str_eq(value, "start") {
        Some(AlignItems::FlexStart)
    } else if str_eq(value, "center") {
        Some(AlignItems::Center)
    } else if str_eq(value, "flex-end") || str_eq(value, "end") {
        Some(AlignItems::FlexEnd)
    } else if str_eq(value, "stretch") {
        Some(AlignItems::Stretch)
    } else if str_eq(value, "baseline") {
        Some(AlignItems::Baseline)
    } else {
        None
    }
}

/// The `text-align` keyword `value` names, if any.
pub open spec fn text_align_keyword(value: Seq<char>) -> Option<TextAlignment> {
    if value == "left"@ {
        Some(TextAlignment::Left)
    } else if value == "center"@ {
        Some(TextAlignment::Center)
    } else if value == "right"@ {
        Some(TextAlignment::Right)
    } else if value == "justify"@ {
        Some(TextAlignment::Justify)
    } else {
        None
    }
}

/// The `text-align` keyword `value` names, if any.
pub fn text_align_named(value: &str) -> (r: Option<TextAlignment>)
    ensures
        r == text_align_keyword(value@),
{
    if str_eq(value, "left") {
        Some(TextAlignment::Left)
    } else if str_eq(value, "center") {
        Some(TextAlignment::Center)
    } else if str_eq(value, "right") {
        Some(TextAlignment::Right)
    } else if str_eq(value, "justify") {
        Some(TextAlignment::Justify)
    } else {
        None
    }
}

/// What `str::parse::<u16>` gives: the `u64` reading when it fits in 16 bits.
pub open spec fn parse_u16_chars(s: Seq<char>) -> Option<u16> {
    match parse_u64_chars(s) {
        Some(v) => if v <= u16::MAX {
            Some(v as u16)
        } else {
            None
        },
        None => None,
    }
}

/// The weight a `font-weight` value gives: a number, or `bold` (700) or
/// `normal` (400).
pub open spec fn font_weight_of(value: Seq<char>) -> Option<u16> {
    match parse_u16_chars(value) {
        Some(w) => Some(w),
        None => if value == "bold"@ {
            Some(700)
        } else if value == "normal"@ {
            Some(400)
        } else {
            None
        },
    }
}

/// The weight a `font-weight` value gives, as `font_weight_of` says.
pub fn font_weight_value(value: &str) -> (r: Option<u16>)
    ensures
        r == font_weight_of(value@),
{
    let cs = chars_of(value);
    proof {
        assert(cs@.subrange(0, cs@.len() as int) =~= value@);
    }
    match parse_u64_range(&cs, 0, cs.len()) {
        Some(v) if v <= 65535 => return Some(v as u16),
        _ => {},
    }
    if str_eq(value, "bold") {
        Some(700)
    } else if str_eq(value, "normal") {
        Some(400)
    } else {
        None
    }
}

/// `s` without any run of `c` at its start.
pub open spec fn strip_leading(s: Seq<char>, c: char) -> Seq<char>
    decreases s.len(),
{
    if s.len() > 0 && s[0] == c {
        strip_leading(s.drop_first(), c)
    } else {
        s
    }
}

/// `s` without any run of `c` at its end.
pub open spec fn strip_trailing(s: Seq<char>, c: char) -> Seq<char>
    decreases s.len(),
{
    if s.len() > 0 && s.last() == c {
        strip_trailing(s.drop_last(), c)
    } else {
        s
    }
}

/// What `str::trim_matches(c)` gives: `s` without runs of `c` at either end.
pub open spec fn trim_matching(s: Seq<char>, c: char) -> Seq<char> {
    strip_trailing(strip_leading(s, c), c)
}

/// The family a `font-family` value names: single quotes, then double
/// quotes, trimmed from both ends.
pub open spec fn font_family_of(value: Seq<char>) -> Seq<char> {
    trim_matching(trim_matching(value, '\''), '"')
}

/// The bounds of `cs[from..to]` without runs of `c` at either end.
fn trim_matching_range(cs: &Vec<char>, from: usize, to: usize, c: char) -> (r: (usize, usize))
    requires
        from <= to <= cs.len(),
    ensures
        from <= r.0 <= r.1 <= to,
        cs@.subrange(r.0 as int, r.1 as int) == trim_matching(cs@.subrange(from as int, to as int), c),
{
    let mut a = from;
    while a < to && cs[a] == c
        invariant
            from <= a <= to <= cs.len(),
            strip_leading(cs@.subrange(from as int, to as int), c) == strip_leading(
                cs@.subrange(a as int, to as int),
                c,
            ),
        decreases to - a,
    {
        assert(cs@.subrange(a as int, to as int).drop_first() =~= cs@.subrange(a + 1, to as int));
        a += 1;
    }
    proof {
        if a < to {
            assert(cs@.subrange(a as int, to as int)[0] == cs@[a as int]);
        }
    }
    let mut b = to;
    while b > a && cs[b - 1] == c
        invariant
            from <= a <= b <= to <= cs.len(),
            strip_trailing(cs@.subrange(a as int, to as int), c) == strip_trailing(
                cs@.subrange(a as int, b as int),
                c,
            ),
        decreases b - a,
    {
        assert(cs@.subrange(a as int, b as int).drop_last() =~= cs@.subrange(a as int, b - 1));
        b -= 1;
    }
    proof {
        if b > a {
            assert(cs@.subrange(a as int, b as int).last() == cs@[b - 1]);
        }
    }
    (a, b)
}

/// The family a `font-family` value names, as `font_family_of` says.
pub fn font_family_value(value: &str) -> (r: String)
    ensures
        r@ == font_family_of(value@),
{
    let cs = chars_of(value);
    proof {
        assert(cs@.subrange(0, cs@.len() as int) =~= value@);
    }
    let (a, b) = trim_matching_range(&cs, 0, cs.len(), '\'');
    let (c, d) = trim_matching_range(&cs, a, b, '"');
    string_from_chars(&cs, c, d)
}

/// What `str::trim_end_matches("px")` gives: `s` without any run of `px` at its end.
pub open spec fn strip_px(s: Seq<char>) -> Seq<char>
    decreases s.len(),
{
    if s.len() >= 2 && s[s.len() - 2] == 'p' && s[s.len() - 1] == 'x' {
        strip_px(s.take(s.len() - 2))
    } else {
        s
    }
}

/// The number text of a pixel length such as `8px`: the value without its
/// `px` suffix, trimmed.
pub open spec fn px_number_of(value: Seq<char>) -> Seq<char> {
    trim_chars(strip_px(value))
}

/// The number text of a pixel length, as `px_number_of` says.
pub fn px_number_text(value: &str) -> (r: String)
    ensures
        r@ == px_number_of(value@),
{
    let cs = chars_of(value);
    let mut b = cs.len();
    assert(cs@.take(b as int) =~= value@);
    while b >= 2 && cs[b - 2] == 'p' && cs[b - 1] == 'x'
        invariant
            cs@ == value@,
            b <= cs.len(),
            strip_px(value@) == strip_px(cs@.take(b as int)),
        decreases b,
    {
        assert(cs@.take(b as int).take(b - 2) =~= cs@.take(b - 2));
        b -= 2;
    }
    proof {
        assert(cs@.subrange(0, b as int) =~= cs@.take(b as int));
    }
    let (x, y) = crate::text::trim_range(&cs, 0, b);
    string_from_chars(&cs, x, y)
}

/// The CSS name of a property (empty for `Unknown`).
pub open spec fn css_property_name(p: CssProperty) -> Seq<char> {
    match p {
        CssProperty::Width => "width"@,
        CssProperty::Height => "height"@,
        CssProperty::MinWidth => "min-width"@,
        CssProperty::MinHeight => "min-height"@,
        CssProperty::MaxWidth => "max-width"@,
        CssProperty::MaxHeight => "max-height"@,
        CssProperty::Padding => "padding"@,
        CssProperty::Margin => "margin"@,
        CssProperty::FlexDirection => "flex-direction"@,
        CssProperty::JustifyContent => "justify-content"@,
        CssProperty::AlignItems => "align-items"@,
        CssProperty::Gap => "gap"@,
        CssProperty::BackgroundColor => "background-color"@,
        CssProperty::TextColor => "color"@,
        CssProperty::BorderColor => "border-color"@,
        CssProperty::BorderWidth => "border-width"@,
        CssProperty::BorderRadius => "border-radius"@,
        CssProperty::Opacity => "opacity"@,
        CssProperty::FontFamily => "font-family"@,
        CssProperty::FontSize => "font-size"@,
        CssProperty::FontWeight => "font-weight"@,
        CssProperty::TextAlign => "text-align"@,
        CssProperty::Unknown => Seq::empty(),
    }
}

/// The second name a property answers to: `background` for the background
/// color, `text-color` for the text color; any other property has one name.
pub open spec fn css_property_alias(p: CssProperty) -> Seq<char> {
    match p {
        CssProperty::BackgroundColor => "background"@,
        CssProperty::TextColor => "text-color"@,
        _ => css_property_name(p),
    }
}

/// Every declaration name the sheet language knows, with the property it sets.
pub open spec fn css_property_names() -> Seq<(Seq<char>, CssProperty)> {
    seq![
        ("width"@, CssProperty::Width),
        ("height"@, CssProperty::Height),
        ("min-width"@, CssProperty::MinWidth),
        ("min-height"@, CssProperty::MinHeight),
        ("max-width"@, CssProperty::MaxWidth),
        ("max-height"@, CssProperty::MaxHeight),
        ("padding"@, CssProperty::Padding),
        ("margin"@, CssProperty::Margin),
        ("flex-direction"@, CssProperty::FlexDirection),
        ("justify-content"@, CssProperty::JustifyContent),
        ("align-items"@, CssProperty::AlignItems),
        ("gap"@, CssProperty::Gap),
        ("background"@, CssProperty::BackgroundColor),
        ("background-color"@, CssProperty::BackgroundColor),
        ("color"@, CssProperty::TextColor),
        ("text-color"@, CssProperty::TextColor),
        ("border-color"@, CssProperty::BorderColor),
        ("border-width"@, CssProperty::BorderWidth),
        ("border-radius"@, CssProperty::BorderRadius),
        ("opacity"@, CssProperty::Opacity),
        ("font-family"@, CssProperty::FontFamily),
        ("font-size"@, CssProperty::FontSize),
        ("font-weight"@, CssProperty::FontWeight),
        ("text-align"@, CssProperty::TextAlign),
    ]
}

/// A declaration name sets the property the name table gives it, and no other name sets a property; so two names set the same property only when one is that property's second name (`background`, `text-color`).
pub proof fn law_property_names(t: Seq<char>)
    ensures
        forall|i: int|
            #![trigger css_property_names()[i]]
            0 <= i < css_property_names().len() ==> css_property(css_property_names()[i].0) == css_property_names()[i].1,
        css_property(t) != CssProperty::Unknown ==> exists|i: int|
            #![trigger css_property_names()[i]]
            0 <= i < css_property_names().len() && css_property_names()[i].0 == t && css_property_names()[i].1 == css_property(t),
        forall|p: CssProperty| p != CssProperty::Unknown ==> #[trigger] css_property(css_property_name(p)) == p && css_property(css_property_alias(p)) == p,
        css_property(t) != CssProperty::Unknown ==> t == css_property_name(css_property(t)) || t == css_property_alias(css_property(t)),
{
    reveal_strlit("width");
    reveal_strlit("height");
    reveal_strlit("min-width");
    reveal_strlit("min-height");
    reveal_strlit("max-width");
    reveal_strlit("max-height");
    reveal_strlit("padding");
    reveal_strlit("margin");
    reveal_strlit("flex-direction");
    reveal_strlit("justify-content");
    reveal_strlit("align-items");
    reveal_strlit("gap");
    reveal_strlit("background");
    reveal_strlit("background-color");
    reveal_strlit("color");
    reveal_strlit("text-color");
    reveal_strlit("border-color");
    reveal_strlit("border-width");
    reveal_strlit("border-radius");
    reveal_strlit("opacity");
    reveal_strlit("font-family");
    reveal_strlit("font-size");
    reveal_strlit("font-weight");
    reveal_strlit("text-align");
    assert("width"@.len() != "height"@.len());
    assert("width"@.len() != "min-width"@.len());
    assert("width"@.len() != "min-height"@.len());
    assert("width"@.len() != "max-width"@.len());
    assert("width"@.len() != "max-height"@.len());
    assert("width"@.len() != "padding"@.len());
    assert("width"@.len() != "margin"@.len());
    assert("width"@.len() != "flex-direction"@.len());
    assert("width"@.len() != "justify-content"@.len());
    assert("width"@.len() != "align-items"@.len());
    assert("width"@.len() != "gap"@.len());
    assert("width"@.len() != "background"@.len());
    assert("width"@.len() != "background-color"@.len());
    assert("width"@[0] != "color"@[0]);
    assert("width"@.len() != "text-color"@.len());
    assert("width"@.len() != "border-color"@.len());
    assert("width"@.len() != "border-width"@.len());
    assert("width"@.len() != "border-radius"@.len());
    assert("width"@.len() != "opacity"@.len());
    assert("width"@.len() != "font-family"@.len());
    assert("width"@.len() != "font-size"@.len());
    assert("width"@.len() != "font-weight"@.len());
    assert("width"@.len() != "text-align"@.len());
    assert("height"@.len() != "min-width"@.len());
    assert("height"@.len() != "min-height"@.len());
    assert("height"@.len() != "max-width"@.len());
    assert("height"@.len() != "max-height"@.len());
    assert("height"@.len() != "padding"@.len());
    assert("height"@[0] != "margin"@[0]);
    assert("height"@.len() != "flex-direction"@.len());
    assert("height"@.len() != "justify-content"@.len());
    assert("height"@.len() != "align-items"@.len());
    assert("height"@.len() != "gap"@.len());
    assert("height"@.len() != "background"@.len());
    assert("height"@.len() != "background-color"@.len());
    assert("height"@.len() != "color"@.len());
    assert("height"@.len() != "text-color"@.len());
    assert("height"@.len() != "border-color"@.len());
    assert("height"@.len() != "border-width"@.len());
    assert("height"@.len() != "border-radius"@.len());
    assert("height"@.len() != "opacity"@.len());
    assert("height"@.len() != "font-family"@.len());
    assert("height"@.len() != "font-size"@.len());
    assert("height"@.len() != "font-weight"@.len());
    assert("height"@.len() != "text-align"@.len());
    assert("min-width"@.len() != "min-height"@.len());
    assert("min-width"@[1] != "max-width"@[1]);
    assert("min-width"@.len() != "max-height"@.len());
    assert("min-width"@.len() != "padding"@.len());
    assert("min-width"@.len() != "margin"@.len());
    assert("min-width"@.len() != "flex-direction"@.len());
    assert("min-width"@.len() != "justify-content"@.len());
    assert("min-width"@.len() != "align-items"@.len());
    assert("min-width"@.len() != "gap"@.len());
    assert("min-width"@.len() != "background"@.len());
    assert("min-width"@.len() != "background-color"@.len());
    assert("min-width"@.len() != "color"@.len());
    assert("min-width"@.len() != "text-color"@.len());
    assert("min-width"@.len() != "border-color"@.len());
    assert("min-width"@.len() != "border-width"@.len());
    assert("min-width"@.len() != "border-radius"@.len());
    assert("min-width"@.len() != "opacity"@.len());
    assert("min-width"@.len() != "font-family"@.len());
    assert("min-width"@[0] != "font-size"@[0]);
    assert("min-width"@.len() != "font-weight"@.len());
    assert("min-width"@.len() != "text-align"@.len());
    assert("min-height"@.len() != "max-width"@.len());
    assert("min-height"@[1] != "max-height"@[1]);
    assert("min-height"@.len() != "padding"@.len());
    assert("min-height"@.len() != "margin"@.len());
    assert("min-height"@.len() != "flex-direction"@.len());
    assert("min-height"@.len() != "justify-content"@.len());
    assert("min-height"@.len() != "align-items"@.len());
    assert("min-height"@.len() != "gap"@.len());
    assert("min-height"@[0] != "background"@[0]);
    assert("min-height"@.len() != "background-color"@.len());
    assert("min-height"@.len() != "color"@.len());
    assert("min-height"@[0] != "text-color"@[0]);
    assert("min-height"@.len() != "border-color"@.len());
    assert("min-height"@.len() != "border-width"@.len());
    assert("min-height"@.len() != "border-radius"@.len());
    assert("min-height"@.len() != "opacity"@.len());
    assert("min-height"@.len() != "font-family"@.len());
    assert("min-height"@.len() != "font-size"@.len());
    assert("min-height"@.len() != "font-weight"@.len());
    assert("min-height"@[0] != "text-align"@[0]);
    assert("max-width"@.len() != "max-height"@.len());
    assert("max-width"@.len() != "padding"@.len());
    assert("max-width"@.len() != "margin"@.len());
    assert("max-width"@.len() != "flex-direction"@.len());
    assert("max-width"@.len() != "justify-content"@.len());
    assert("max-width"@.len() != "align-items"@.len());
    assert("max-width"@.len() != "gap"@.len());
    assert("max-width"@.len() != "background"@.len());
    assert("max-width"@.len() != "background-color"@.len());
    assert("max-width"@.len() != "color"@.len());
    assert("max-width"@.len() != "text-color"@.len());
    assert("max-width"@.len() != "border-color"@.len());
    assert("max-width"@.len() != "border-width"@.len());
    assert("max-width"@.len() != "border-radius"@.len());
    assert("max-width"@.len() != "opacity"@.len());
    assert("max-width"@.len() != "font-family"@.len());
    assert("max-width"@[0] != "font-size"@[0]);
    assert("max-width"@.len() != "font-weight"@.len());
    assert("max-width"@.len() != "text-align"@.len());
    assert("max-height"@.len() != "padding"@.len());
    assert("max-height"@.len() != "margin"@.len());
    assert("max-height"@.len() != "flex-direction"@.len());
    assert("max-height"@.len() != "justify-content"@.len());
    assert("max-height"@.len() != "align-items"@.len());
    assert("max-height"@.len() != "gap"@.len());
    assert("max-height"@[0] != "background"@[0]);
    assert("max-height"@.len() != "background-color"@.len());
    assert("max-height"@.len() != "color"@.len());
    assert("max-height"@[0] != "text-color"@[0]);
    assert("max-height"@.len() != "border-color"@.len());
    assert("max-height"@.len() != "border-width"@.len());
    assert("max-height"@.len() != "border-radius"@.len());
    assert("max-height"@.len() != "opacity"@.len());
    assert("max-height"@.len() != "font-family"@.len());
    assert("max-height"@.len() != "font-size"@.len());
    assert("max-height"@.len() != "font-weight"@.len());
    assert("max-height"@[0] != "text-align"@[0]);
    assert("padding"@.len() != "margin"@.len());
    assert("padding"@.len() != "flex-direction"@.len());
    assert("padding"@.len() != "justify-content"@.len());
    assert("padding"@.len() != "align-items"@.len());
    assert("padding"@.len() != "gap"@.len());
    assert("padding"@.len() != "background"@.len());
    assert("padding"@.len() != "background-color"@.len());
    assert("padding"@.len() != "color"@.len());
    assert("padding"@.len() != "text-color"@.len());
    assert("padding"@.len() != "border-color"@.len());
    assert("padding"@.len() != "border-width"@.len());
    assert("padding"@.len() != "border-radius"@.len());
    assert("padding"@[0] != "opacity"@[0]);
    assert("padding"@.len() != "font-family"@.len());
    assert("padding"@.len() != "font-size"@.len());
    assert("padding"@.len() != "font-weight"@.len());
    assert("padding"@.len() != "text-align"@.len());
    assert("margin"@.len() != "flex-direction"@.len());
    assert("margin"@.len() != "justify-content"@.len());
    assert("margin"@.len() != "align-items"@.len());
    assert("margin"@.len() != "gap"@.len());
    assert("margin"@.len() != "background"@.len());
    assert("margin"@.len() != "background-color"@.len());
    assert("margin"@.len() != "color"@.len());
    assert("margin"@.len() != "text-color"@.len());
    assert("margin"@.len() != "border-color"@.len());
    assert("margin"@.len() != "border-width"@.len());
    assert("margin"@.len() != "border-radius"@.len());
    assert("margin"@.len() != "opacity"@.len());
    assert("margin"@.len() != "font-family"@.len());
    assert("margin"@.len() != "font-size"@.len());
    assert("margin"@.len() != "font-weight"@.len());
    assert("margin"@.len() != "text-align"@.len());
    assert("flex-direction"@.len() != "justify-content"@.len());
    assert("flex-direction"@.len() != "align-items"@.len());
    assert("flex-direction"@.len() != "gap"@.len());
    assert("flex-direction"@.len() != "background"@.len());
    assert("flex-direction"@.len() != "background-color"@.len());
    assert("flex-direction"@.len() != "color"@.len());
    assert("flex-direction"@.len() != "text-color"@.len());
    assert("flex-direction"@.len() != "border-color"@.len());
    assert("flex-direction"@.len() != "border-width"@.len());
    assert("flex-direction"@.len() != "border-radius"@.len());
    assert("flex-direction"@.len() != "opacity"@.len());
    assert("flex-direction"@.len() != "font-family"@.len());
    assert("flex-direction"@.len() != "font-size"@.len());
    assert("flex-direction"@.len() != "font-weight"@.len());
    assert("flex-direction"@.len() != "text-align"@.len());
    assert("justify-content"@.len() != "align-items"@.len());
    assert("justify-content"@.len() != "gap"@.len());
    assert("justify-content"@.len() != "background"@.len());
    assert("justify-content"@.len() != "background-color"@.len());
    assert("justify-content"@.len() != "color"@.len());
    assert("justify-content"@.len() != "text-color"@.len());
    assert("justify-content"@.len() != "border-color"@.len());
    assert("justify-content"@.len() != "border-width"@.len());
    assert("justify-content"@.len() != "border-radius"@.len());
    assert("justify-content"@.len() != "opacity"@.len());
    assert("justify-content"@.len() != "font-family"@.len());
    assert("justify-content"@.len() != "font-size"@.len());
    assert("justify-content"@.len() != "font-weight"@.len());
    assert("justify-content"@.len() != "text-align"@.len());
    assert("align-items"@.len() != "gap"@.len());
    assert("align-items"@.len() != "background"@.len());
    assert("align-items"@.len() != "background-color"@.len());
    assert("align-items"@.len() != "color"@.len());
    assert("align-items"@.len() != "text-color"@.len());
    assert("align-items"@.len() != "border-color"@.len());
    assert("align-items"@.len() != "border-width"@.len());
    assert("align-items"@.len() != "border-radius"@.len());
    assert("align-items"@.len() != "opacity"@.len());
    assert("align-items"@[0] != "font-family"@[0]);
    assert("align-items"@.len() != "font-size"@.len());
    assert("align-items"@[0] != "font-weight"@[0]);
    assert("align-items"@.len() != "text-align"@.len());
    assert("gap"@.len() != "background"@.len());
    assert("gap"@.len() != "background-color"@.len());
    assert("gap"@.len() != "color"@.len());
    assert("gap"@.len() != "text-color"@.len());
    assert("gap"@.len() != "border-color"@.len());
    assert("gap"@.len() != "border-width"@.len());
    assert("gap"@.len() != "border-radius"@.len());
    assert("gap"@.len() != "opacity"@.len());
    assert("gap"@.len() != "font-family"@.len());
    assert("gap"@.len() != "font-size"@.len());
    assert("gap"@.len() != "font-weight"@.len());
    assert("gap"@.len() != "text-align"@.len());
    assert("background"@.len() != "background-color"@.len());
    assert("background"@.len() != "color"@.len());
    assert("background"@[0] != "text-color"@[0]);
    assert("background"@.len() != "border-color"@.len());
    assert("background"@.len() != "border-width"@.len());
    assert("background"@.len() != "border-radius"@.len());
    assert("background"@.len() != "opacity"@.len());
    assert("background"@.len() != "font-family"@.len());
    assert("background"@.len() != "font-size"@.len());
    assert("background"@.len() != "font-weight"@.len());
    assert("background"@[0] != "text-align"@[0]);
    assert("background-color"@.len() != "color"@.len());
    assert("background-color"@.len() != "text-color"@.len());
    assert("background-color"@.len() != "border-color"@.len());
    assert("background-color"@.len() != "border-width"@.len());
    assert("background-color"@.len() != "border-radius"@.len());
    assert("background-color"@.len() != "opacity"@.len());
    assert("background-color"@.len() != "font-family"@.len());
    assert("background-color"@.len() != "font-size"@.len());
    assert("background-color"@.len() != "font-weight"@.len());
    assert("background-color"@.len() != "text-align"@.len());
    assert("color"@.len() != "text-color"@.len());
    assert("color"@.len() != "border-color"@.len());
    assert("color"@.len() != "border-width"@.len());
    assert("color"@.len() != "border-radius"@.len());
    assert("color"@.len() != "opacity"@.len());
    assert("color"@.len() != "font-family"@.len());
    assert("color"@.len() != "font-size"@.len());
    assert("color"@.len() != "font-weight"@.len());
    assert("color"@.len() != "text-align"@.len());
    assert("text-color"@.len() != "border-color"@.len());
    assert("text-color"@.len() != "border-width"@.len());
    assert("text-color"@.len() != "border-radius"@.len());
    assert("text-color"@.len() != "opacity"@.len());
    assert("text-color"@.len() != "font-family"@.len());
    assert("text-color"@.len() != "font-size"@.len());
    assert("text-color"@.len() != "font-weight"@.len());
    assert("text-color"@[5] != "text-align"@[5]);
    assert("border-color"@[7] != "border-width"@[7]);
    assert("border-color"@.len() != "border-radius"@.len());
    assert("border-color"@.len() != "opacity"@.len());
    assert("border-color"@.len() != "font-family"@.len());
    assert("border-color"@.len() != "font-size"@.len());
    assert("border-color"@.len() != "font-weight"@.len());
    assert("border-color"@.len() != "text-align"@.len());
    assert("border-width"@.len() != "border-radius"@.len());
    assert("border-width"@.len() != "opacity"@.len());
    assert("border-width"@.len() != "font-family"@.len());
    assert("border-width"@.len() != "font-size"@.len());
    assert("border-width"@.len() != "font-weight"@.len());
    assert("border-width"@.len() != "text-align"@.len());
    assert("border-radius"@.len() != "opacity"@.len());
    assert("border-radius"@.len() != "font-family"@.len());
    assert("border-radius"@.len() != "font-size"@.len());
    assert("border-radius"@.len() != "font-weight"@.len());
    assert("border-radius"@.len() != "text-align"@.len());
    assert("opacity"@.len() != "font-family"@.len());
    assert("opacity"@.len() != "font-size"@.len());
    assert("opacity"@.len() != "font-weight"@.len());
    assert("opacity"@.len() != "text-align"@.len());
    assert("font-family"@.len() != "font-size"@.len());
    assert("font-family"@[5] != "font-weight"@[5]);
    assert("font-family"@.len() != "text-align"@.len());
    assert("font-size"@.len() != "font-weight"@.len());
    assert("font-size"@.len() != "text-align"@.len());
    assert("font-weight"@.len() != "text-align"@.len());
    let tbl = css_property_names();
    assert(tbl.len() == 24);
    assert forall|i: int| 0 <= i < tbl.len() implies #[trigger] css_property(tbl[i].0) == tbl[i].1 by {
        if i == 0 {
            assert(tbl[0] == ("width"@, CssProperty::Width));
            assert(css_property("width"@) == CssProperty::Width);
        } else if i == 1 {
            assert(tbl[1] == ("height"@, CssProperty::Height));
            assert(css_property("height"@) == CssProperty::Height);
        } else if i == 2 {
            assert(tbl[2] == ("min-width"@, CssProperty::MinWidth));
            assert(css_property("min-width"@) == CssProperty::MinWidth);
        } else if i == 3 {
            assert(tbl[3] == ("min-height"@, CssProperty::MinHeight));
            assert(css_property("min-height"@) == CssProperty::MinHeight);
        } else if i == 4 {
            assert(tbl[4] == ("max-width"@, CssProperty::MaxWidth));
            assert(css_property("max-width"@) == CssProperty::MaxWidth);
        } else if i == 5 {
            assert(tbl[5] == ("max-height"@, CssProperty::MaxHeight));
            assert(css_property("max-height"@) == CssProperty::MaxHeight);
        } else if i == 6 {
            assert(tbl[6] == ("padding"@, CssProperty::Padding));
            assert(css_property("padding"@) == CssProperty::Padding);
        } else if i == 7 {
            assert(tbl[7] == ("margin"@, CssProperty::Margin));
            assert(css_property("margin"@) == CssProperty::Margin);
        } else if i == 8 {
            assert(tbl[8] == ("flex-direction"@, CssProperty::FlexDirection));
            assert(css_property("flex-direction"@) == CssProperty::FlexDirection);
        } else if i == 9 {
            assert(tbl[9] == ("justify-content"@, CssProperty::JustifyContent));
            assert(css_property("justify-content"@) == CssProperty::JustifyContent);
        } else if i == 10 {
            assert(tbl[10] == ("align-items"@, CssProperty::AlignItems));
            assert(css_property("align-items"@) == CssProperty::AlignItems);
        } else if i == 11 {
            assert(tbl[11] == ("gap"@, CssProperty::Gap));
            assert(css_property("gap"@) == CssProperty::Gap);
        } else if i == 12 {
            assert(tbl[12] == ("background"@, CssProperty::BackgroundColor));
            assert(css_property("background"@) == CssProperty::BackgroundColor);
        } else if i == 13 {
            assert(tbl[13] == ("background-color"@, CssProperty::BackgroundColor));
            assert(css_property("background-color"@) == CssProperty::BackgroundColor);
        } else if i == 14 {
            assert(tbl[14] == ("color"@, CssProperty::TextColor));
            assert(css_property("color"@) == CssProperty::TextColor);
        } else if i == 15 {
            assert(tbl[15] == ("text-color"@, CssProperty::TextColor));
            assert(css_property("text-color"@) == CssProperty::TextColor);
        } else if i == 16 {
            assert(tbl[16] == ("border-color"@, CssProperty::BorderColor));
            assert(css_property("border-color"@) == CssProperty::BorderColor);
        } else if i == 17 {
            assert(tbl[17] == ("border-width"@, CssProperty::BorderWidth));
            assert(css_property("border-width"@) == CssProperty::BorderWidth);
        } else if i == 18 {
            assert(tbl[18] == ("border-radius"@, CssProperty::BorderRadius));
            assert(css_property("border-radius"@) == CssProperty::BorderRadius);
        } else if i == 19 {
            assert(tbl[19] == ("opacity"@, CssProperty::Opacity));
            assert(css_property("opacity"@) == CssProperty::Opacity);
        } else if i == 20 {
            assert(tbl[20] == ("font-family"@, CssProperty::FontFamily));
            assert(css_property("font-family"@) == CssProperty::FontFamily);
        } else if i == 21 {
            assert(tbl[21] == ("font-size"@, CssProperty::FontSize));
            assert(css_property("font-size"@) == CssProperty::FontSize);
        } else if i == 22 {
            assert(tbl[22] == ("font-weight"@, CssProperty::FontWeight));
            assert(css_property("font-weight"@) == CssProperty::FontWeight);
        } else if i == 23 {
            assert(tbl[23] == ("text-align"@, CssProperty::TextAlign));
            assert(css_property("text-align"@) == CssProperty::TextAlign);
        }
    }
    if t == "width"@ {
        assert(tbl[0] == ("width"@, CssProperty::Width));
    } else if t == "height"@ {
        assert(tbl[1] == ("height"@, CssProperty::Height));
    } else if t == "min-width"@ {
        assert(tbl[2] == ("min-width"@, CssProperty::MinWidth));
    } else if t == "min-height"@ {
        assert(tbl[3] == ("min-height"@, CssProperty::MinHeight));
    } else if t == "max-width"@ {
        assert(tbl[4] == ("max-width"@, CssProperty::MaxWidth));
    } else if t == "max-height"@ {
        assert(tbl[5] == ("max-height"@, CssProperty::MaxHeight));
    } else if t == "padding"@ {
        assert(tbl[6] == ("padding"@, CssProperty::Padding));
    } else if t == "margin"@ {
        assert(tbl[7] == ("margin"@, CssProperty::Margin));
    } else if t == "flex-direction"@ {
        assert(tbl[8] == ("flex-direction"@, CssProperty::FlexDirection));
    } else if t == "justify-content"@ {
        assert(tbl[9] == ("justify-content"@, CssProperty::JustifyContent));
    } else if t == "align-items"@ {
        assert(tbl[10] == ("align-items"@, CssProperty::AlignItems));
    } else if t == "gap"@ {
        assert(tbl[11] == ("gap"@, CssProperty::Gap));
    } else if t == "background"@ {
        assert(tbl[12] == ("background"@, CssProperty::BackgroundColor));
    } else if t == "background-color"@ {
        assert(tbl[13] == ("background-color"@, CssProperty::BackgroundColor));
    } else if t == "color"@ {
        assert(tbl[14] == ("color"@, CssProperty::TextColor));
    } else if t == "text-color"@ {
        assert(tbl[15] == ("text-color"@, CssProperty::TextColor));
    } else if t == "border-color"@ {
        assert(tbl[16] == ("border-color"@, CssProperty::BorderColor));
    } else if t == "border-width"@ {
        assert(tbl[17] == ("border-width"@, CssProperty::BorderWidth));
    } else if t == "border-radius"@ {
        assert(tbl[18] == ("border-radius"@, CssProperty::BorderRadius));
    } else if t == "opacity"@ {
        assert(tbl[19] == ("opacity"@, CssProperty::Opacity));
    } else if t == "font-family"@ {
        assert(tbl[20] == ("font-family"@, CssProperty::FontFamily));
    } else if t == "font-size"@ {
        assert(tbl[21] == ("font-size"@, CssProperty::FontSize));
    } else if t == "font-weight"@ {
        assert(tbl[22] == ("font-weight"@, CssProperty::FontWeight));
    } else if t == "text-align"@ {
        assert(tbl[23] == ("text-align"@, CssProperty::TextAlign));
    }
}

/// The `flex-direction` keywords with the direction each names.
pub open spec fn flex_direction_keywords() -> Seq<(Seq<char>, FlexDirection)> {
    seq![
        ("row"@, FlexDirection::Row),
        ("column"@, FlexDirection::Column),
        ("row-reverse"@, FlexDirection::RowReverse),
        ("column-reverse"@, FlexDirection::ColumnReverse),
    ]
}

/// Each `flex-direction` keyword names the direction the keyword table gives it, and no other text names one.
pub proof fn law_flex_direction_keywords(t: Seq<char>)
    ensures
        forall|i: int|
            #![trigger flex_direction_keywords()[i]]
            0 <= i < flex_direction_keywords().len() ==> flex_direction_keyword(flex_direction_keywords()[i].0) == Some(flex_direction_keywords()[i].1),
        flex_direction_keyword(t) is Some ==> exists|i: int|
            #![trigger flex_direction_keywords()[i]]
            0 <= i < flex_direction_keywords().len() && flex_direction_keywords()[i].0 == t && Some(flex_direction_keywords()[i].1) == flex_direction_keyword(t),
{
    reveal_strlit("row");
    reveal_strlit("column");
    reveal_strlit("row-reverse");
    reveal_strlit("column-reverse");
    assert("row"@.len() != "column"@.len());
    assert("row"@.len() != "row-reverse"@.len());
    assert("row"@.len() != "column-reverse"@.len());
    assert("column"@.len() != "row-reverse"@.len());
    assert("column"@.len() != "column-reverse"@.len());
    assert("row-reverse"@.len() != "column-reverse"@.len());
    let tbl = flex_direction_keywords();
    assert(tbl.len() == 4);
    assert forall|i: int| 0 <= i < tbl.len() implies #[trigger] flex_direction_keyword(tbl[i].0) == Some(tbl[i].1) by {
        if i == 0 {
            assert(tbl[0] == ("row"@, FlexDirection::Row));
            assert(flex_direction_keyword("row"@) == Some(FlexDirection::Row));
        } else if i == 1 {
            assert(tbl[1] == ("column"@, FlexDirection::Column));
            assert(flex_direction_keyword("column"@) == Some(FlexDirection::Column));
        } else if i == 2 {
            assert(tbl[2] == ("row-reverse"@, FlexDirection::RowReverse));
            assert(flex_direction_keyword("row-reverse"@) == Some(FlexDirection::RowReverse));
        } else if i == 3 {
            assert(tbl[3] == ("column-reverse"@, FlexDirection::ColumnReverse));
            assert(flex_direction_keyword("column-reverse"@) == Some(FlexDirection::ColumnReverse));
        }
    }
    if t == "row"@ {
        assert(tbl[0] == ("row"@, FlexDirection::Row));
    } else if t == "column"@ {
        assert(tbl[1] == ("column"@, FlexDirection::Column));
    } else if t == "row-reverse"@ {
        assert(tbl[2] == ("row-reverse"@, FlexDirection::RowReverse));
    } else if t == "column-reverse"@ {
        assert(tbl[3] == ("column-reverse"@, FlexDirection::ColumnReverse));
    }
}

/// The `justify-content` keywords with the distribution each names.
pub open spec fn justify_content_keywords() -> Seq<(Seq<char>, JustifyContent)> {
    seq![
        ("flex-start"@, JustifyContent::FlexStart),
        ("start"@, JustifyContent::FlexStart),
        ("center"@, JustifyContent::Center),
        ("flex-end"@, JustifyContent::FlexEnd),
        ("end"@, JustifyContent::FlexEnd),
        ("space-between"@, JustifyContent::SpaceBetween),
        ("space-around"@, JustifyContent::SpaceAround),
        ("space-evenly"@, JustifyContent::SpaceEvenly),
    ]
}

/// Each `justify-content` keyword names the distribution the keyword table gives it, and no other text names one.
pub proof fn law_justify_content_keywords(t: Seq<char>)
    ensures
        forall|i: int|
            #![trigger justify_content_keywords()[i]]
            0 <= i < justify_content_keywords().len() ==> justify_content_keyword(justify_content_keywords()[i].0) == Some(justify_content_keywords()[i].1),
        justify_content_keyword(t) is Some ==> exists|i: int|
            #![trigger justify_content_keywords()[i]]
            0 <= i < justify_content_keywords().len() && justify_content_keywords()[i].0 == t && Some(justify_content_keywords()[i].1) == justify_content_keyword(t),
{
    reveal_strlit("flex-start");
    reveal_strlit("start");
    reveal_strlit("center");
    reveal_strlit("flex-end");
    reveal_strlit("end");
    reveal_strlit("space-between");
    reveal_strlit("space-around");
    reveal_strlit("space-evenly");
    assert("flex-start"@.len() != "start"@.len());
    assert("flex-start"@.len() != "center"@.len());
    assert("flex-start"@.len() != "flex-end"@.len());
    assert("flex-start"@.len() != "end"@.len());
    assert("flex-start"@.len() != "space-between"@.len());
    assert("flex-start"@.len() != "space-around"@.len());
    assert("flex-start"@.len() != "space-evenly"@.len());
    assert("start"@.len() != "center"@.len());
    assert("start"@.len() != "flex-end"@.len());
    assert("start"@.len() != "end"@.len());
    assert("start"@.len() != "space-between"@.len());
    assert("start"@.len() != "space-around"@.len());
    assert("start"@.len() != "space-evenly"@.len());
    assert("center"@.len() != "flex-end"@.len());
    assert("center"@.len() != "end"@.len());
    assert("center"@.len() != "space-between"@.len());
    assert("center"@.len() != "space-around"@.len());
    assert("center"@.len() != "space-evenly"@.len());
    assert("flex-end"@.len() != "end"@.len());
    assert("flex-end"@.len() != "space-between"@.len());
    assert("flex-end"@.len() != "space-around"@.len());
    assert("flex-end"@.len() != "space-evenly"@.len());
    assert("end"@.len() != "space-between"@.len());
    assert("end"@.len() != "space-around"@.len());
    assert("end"@.len() != "space-evenly"@.len());
    assert("space-between"@.len() != "space-around"@.len());
    assert("space-between"@.len() != "space-evenly"@.len());
    assert("space-around"@[6] != "space-evenly"@[6]);
    let tbl = justify_content_keywords();
    assert(tbl.len() == 8);
    assert forall|i: int| 0 <= i < tbl.len() implies #[trigger] justify_content_keyword(tbl[i].0) == Some(tbl[i].1) by {
        if i == 0 {
            assert(tbl[0] == ("flex-start"@, JustifyContent::FlexStart));
            assert(justify_content_keyword("flex-start"@) == Some(JustifyContent::FlexStart));
        } else if i == 1 {
            assert(tbl[1] == ("start"@, JustifyContent::FlexStart));
            assert(justify_content_keyword("start"@) == Some(JustifyContent::FlexStart));
        } else if i == 2 {
            assert(tbl[2] == ("center"@, JustifyContent::Center));
            assert(justify_content_keyword("center"@) == Some(JustifyContent::Center));
        } else if i == 3 {
            assert(tbl[3] == ("flex-end"@, JustifyContent::FlexEnd));
            assert(justify_content_keyword("flex-end"@) == Some(JustifyContent::FlexEnd));
        } else if i == 4 {
            assert(tbl[4] == ("end"@, JustifyContent::FlexEnd));
            assert(justify_content_keyword("end"@) == Some(JustifyContent::FlexEnd));
        } else if i == 5 {
            assert(tbl[5] == ("space-between"@, JustifyContent::SpaceBetween));
            assert(justify_content_keyword("space-between"@) == Some(JustifyContent::SpaceBetween));
        } else if i == 6 {
            assert(tbl[6] == ("space-around"@, JustifyContent::SpaceAround));
            assert(justify_content_keyword("space-around"@) == Some(JustifyContent::SpaceAround));
        } else if i == 7 {
            assert(tbl[7] == ("space-evenly"@, JustifyContent::SpaceEvenly));
            assert(justify_content_keyword("space-evenly"@) == Some(JustifyContent::SpaceEvenly));
        }
    }
    if t == "flex-start"@ {
        assert(tbl[0] == ("flex-start"@, JustifyContent::FlexStart));
    } else if t == "start"@ {
        assert(tbl[1] == ("start"@, JustifyContent::FlexStart));
    } else if t == "center"@ {
        assert(tbl[2] == ("center"@, JustifyContent::Center));
    } else if t == "flex-end"@ {
        assert(tbl[3] == ("flex-end"@, JustifyContent::FlexEnd));
    } else if t == "end"@ {
        assert(tbl[4] == ("end"@, JustifyContent::FlexEnd));
    } else if t == "space-between"@ {
        assert(tbl[5] == ("space-between"@, JustifyContent::SpaceBetween));
    } else if t == "space-around"@ {
        assert(tbl[6] == ("space-around"@, JustifyContent::SpaceAround));
    } else if t == "space-evenly"@ {
        assert(tbl[7] == ("space-evenly"@, JustifyContent::SpaceEvenly));
    }
}

/// The `align-items` keywords with the alignment each names.
pub open spec fn align_items_keywords() -> Seq<(Seq<char>, AlignItems)> {
    seq![
        ("flex-start"@, AlignItems::FlexStart),
        ("start"@, AlignItems::FlexStart),
        ("center"@, AlignItems::Center),
        ("flex-end"@, AlignItems::FlexEnd),
        ("end"@, AlignItems::FlexEnd),
        ("stretch"@, AlignItems::Stretch),
        ("baseline"@, AlignItems::Baseline),
    ]
}

/// Each `align-items` keyword names the alignment the keyword table gives it, and no other text names one.
pub proof fn law_align_items_keywords(t: Seq<char>)
    ensures
        forall|i: int|
            #![trigger align_items_keywords()[i]]
            0 <= i < align_items_keywords().len() ==> align_items_keyword(align_items_keywords()[i].0) == Some(align_items_keywords()[i].1),
        align_items_keyword(t) is Some ==> exists|i: int|
            #![trigger align_items_keywords()[i]]
            0 <= i < align_items_keywords().len() && align_items_keywords()[i].0 == t && Some(align_items_keywords()[i].1) == align_items_keyword(t),
{
    reveal_strlit("flex-start");
    reveal_strlit("start");
    reveal_strlit("center");
    reveal_strlit("flex-end");
    reveal_strlit("end");
    reveal_strlit("stretch");
    reveal_strlit("baseline");
    assert("flex-start"@.len() != "start"@.len());
    assert("flex-start"@.len() != "center"@.len());
    assert("flex-start"@.len() != "flex-end"@.len());
    assert("flex-start"@.len() != "end"@.len());
    assert("flex-start"@.len() != "stretch"@.len());
    assert("flex-start"@.len() != "baseline"@.len());
    assert("start"@.len() != "center"@.len());
    assert("start"@.len() != "flex-end"@.len());
    assert("start"@.len() != "end"@.len());
    assert("start"@.len() != "stretch"@.len());
    assert("start"@.len() != "baseline"@.len());
    assert("center"@.len() != "flex-end"@.len());
    assert("center"@.len() != "end"@.len());
    assert("center"@.len() != "stretch"@.len());
    assert("center"@.len() != "baseline"@.len());
    assert("flex-end"@.len() != "end"@.len());
    assert("flex-end"@.len() != "stretch"@.len());
    assert("flex-end"@[0] != "baseline"@[0]);
    assert("end"@.len() != "stretch"@.len());
    assert("end"@.len() != "baseline"@.len());
    assert("stretch"@.len() != "baseline"@.len());
    let tbl = align_items_keywords();
    assert(tbl.len() == 7);
    assert forall|i: int| 0 <= i < tbl.len() implies #[trigger] align_items_keyword(tbl[i].0) == Some(tbl[i].1) by {
        if i == 0 {
            assert(tbl[0] == ("flex-start"@, AlignItems::FlexStart));
            assert(align_items_keyword("flex-start"@) == Some(AlignItems::FlexStart));
        } else if i == 1 {
            assert(tbl[1] == ("start"@, AlignItems::FlexStart));
            assert(align_items_keyword("start"@) == Some(AlignItems::FlexStart));
        } else if i == 2 {
            assert(tbl[2] == ("center"@, AlignItems::Center));
            assert(align_items_keyword("center"@) == Some(AlignItems::Center));
        } else if i == 3 {
            assert(tbl[3] == ("flex-end"@, AlignItems::FlexEnd));
            assert(align_items_keyword("flex-end"@) == Some(AlignItems::FlexEnd));
        } else if i == 4 {
            assert(tbl[4] == ("end"@, AlignItems::FlexEnd));
            assert(align_items_keyword("end"@) == Some(AlignItems::FlexEnd));
        } else if i == 5 {
            assert(tbl[5] == ("stretch"@, AlignItems::Stretch));
            assert(align_items_keyword("stretch"@) == Some(AlignItems::Stretch));
        } else if i == 6 {
            assert(tbl[6] == ("baseline"@, AlignItems::Baseline));
            assert(align_items_keyword("baseline"@) == Some(AlignItems::Baseline));
        }
    }
    if t == "flex-start"@ {
        assert(tbl[0] == ("flex-start"@, AlignItems::FlexStart));
    } else if t == "start"@ {
        assert(tbl[1] == ("start"@, AlignItems::FlexStart));
    } else if t == "center"@ {
        assert(tbl[2] == ("center"@, AlignItems::Center));
    } else if t == "flex-end"@ {
        assert(tbl[3] == ("flex-end"@, AlignItems::FlexEnd));
    } else if t == "end"@ {
        assert(tbl[4] == ("end"@, AlignItems::FlexEnd));
    } else if t == "stretch"@ {
        assert(tbl[5] == ("stretch"@, AlignItems::Stretch));
    } else if t == "baseline"@ {
        assert(tbl[6] == ("baseline"@, AlignItems::Baseline));
    }
}

/// The `text-align` keywords with the alignment each names.
pub open spec fn text_align_keywords() -> Seq<(Seq<char>, TextAlignment)> {
    seq![
        ("left"@, TextAlignment::Left),
        ("center"@, TextAlignment::Center),
        ("right"@, TextAlignment::Right),
        ("justify"@, TextAlignment::Justify),
    ]
}

/// Each `text-align` keyword names the alignment the keyword table gives it, and no other text names one.
pub proof fn law_text_align_keywords(t: Seq<char>)
    ensures
        forall|i: int|
            #![trigger text_align_keywords()[i]]
            0 <= i < text_align_keywords().len() ==> text_align_keyword(text_align_keywords()[i].0) == Some(text_align_keywords()[i].1),
        text_align_keyword(t) is Some ==> exists|i: int|
            #![trigger text_align_keywords()[i]]
            0 <= i < text_align_keywords().len() && text_align_keywords()[i].0 == t && Some(text_align_keywords()[i].1) == text_align_keyword(t),
{
    reveal_strlit("left");
    reveal_strlit("center");
    reveal_strlit("right");
    reveal_strlit("justify");
    assert("left"@.len() != "center"@.len());
    assert("left"@.len() != "right"@.len());
    assert("left"@.len() != "justify"@.len());
    assert("center"@.len() != "right"@.len());
    assert("center"@.len() != "justify"@.len());
    assert("right"@.len() != "justify"@.len());
    let tbl = text_align_keywords();
    assert(tbl.len() == 4);
    assert forall|i: int| 0 <= i < tbl.len() implies #[trigger] text_align_keyword(tbl[i].0) == Some(tbl[i].1) by {
        if i == 0 {
            assert(tbl[0] == ("left"@, TextAlignment::Left));
            assert(text_align_keyword("left"@) == Some(TextAlignment::Left));
        } else if i == 1 {
            assert(tbl[1] == ("center"@, TextAlignment::Center));
            assert(text_align_keyword("center"@) == Some(TextAlignment::Center));
        } else if i == 2 {
            assert(tbl[2] == ("right"@, TextAlignment::Right));
            assert(text_align_keyword("right"@) == Some(TextAlignment::Right));
        } else if i == 3 {
            assert(tbl[3] == ("justify"@, TextAlignment::Justify));
            assert(text_align_keyword("justify"@) == Some(TextAlignment::Justify));
        }
    }
    if t == "left"@ {
        assert(tbl[0] == ("left"@, TextAlignment::Left));
    } else if t == "center"@ {
        assert(tbl[1] == ("center"@, TextAlignment::Center));
    } else if t == "right"@ {
        assert(tbl[2] == ("right"@, TextAlignment::Right));
    } else if t == "justify"@ {
        assert(tbl[3] == ("justify"@, TextAlignment::Justify));
    }
}

proof fn lemma_first_index_after(a: Seq<char>, c: char, b: Seq<char>)
    requires
        !a.contains(c),
    ensures
        first_char_index(a + seq![c] + b, c) == Some(a.len() as int),
        (a + seq![c] + b).take(a.len() as int) == a,
        (a + seq![c] + b).skip(a.len() as int + 1) == b,
{
    let s = a + seq![c] + b;
    assert forall|j: int| 0 <= j < a.len() implies #[trigger] s[j] != c by {
        assert(s[j] == a[j]);
    }
    assert(s[a.len() as int] == c);
    lemma_first_char_index(s, c, a.len() as int);
    assert(s.take(a.len() as int) =~= a);
    assert(s.skip(a.len() as int + 1) =~= b);
}

/// A style body is read piece by piece between semicolons: the declarations
/// of `a;b`, where `a` holds no semicolon, are those of `a` followed by those
/// of `b`.
pub proof fn law_declarations_split_at_semicolons(a: Seq<char>, b: Seq<char>)
    requires
        !a.contains(';'),
    ensures
        declarations(a + seq![';'] + b) == present(declaration(a)) + declarations(b),
{
    lemma_first_index_after(a, ';', b);
}

/// A declaration `name:value` whose name holds no colon declares that name
/// and that value, each trimmed.
pub proof fn law_declaration_reads_name_and_value(name: Seq<char>, value: Seq<char>)
    requires
        !name.contains(':'),
        name.len() > 0,
        !is_unicode_whitespace(name[0]),
        value.len() > 0 ==> !is_unicode_whitespace(value.last()),
    ensures
        declaration(name + seq![':'] + value) == Some((trim_chars(name), trim_chars(value))),
{
    let s = name + seq![':'] + value;
    assert(s[0] == name[0]);
    assert(trim_start_chars(s) == s);
    if value.len() > 0 {
        assert(s.last() == value.last());
    } else {
        assert(s.last() == ':');
    }
    assert(trim_end_chars(s) == s);
    lemma_first_index_after(name, ':', value);
}

/// A style sheet is read block by block: `selector { body } rest`, with no
/// `{` in the selector and no `}` in the body, gives the trimmed selector and
/// body as its first block (none when the selector is blank), and then the
/// blocks of the rest.
pub proof fn law_style_blocks_in_order(sel: Seq<char>, body: Seq<char>, rest: Seq<char>)
    requires
        !sel.contains('{'),
        !body.contains('}'),
    ensures
        style_blocks(sel + seq!['{'] + body + seq!['}'] + rest) == (if trim_chars(sel).len() == 0 {
            Seq::<(Seq<char>, Seq<char>)>::empty()
        } else {
            seq![(trim_chars(sel), trim_chars(body))]
        }) + style_blocks(rest),
{
    let after = body + seq!['}'] + rest;
    assert(sel + seq!['{'] + body + seq!['}'] + rest =~= sel + seq!['{'] + after);
    lemma_first_index_after(sel, '{', after);
    lemma_first_index_after(body, '}', rest);
}

/// A pixel length reads as its number: a trailing `px` is dropped, so
/// `8px` and `8` give the same number text.
pub proof fn law_px_suffix_is_dropped(n: Seq<char>)
    ensures
        px_number_of(n + seq!['p', 'x']) == px_number_of(n),
{
    let s = n + seq!['p', 'x'];
    assert(s.take(s.len() - 2) =~= n);
}

/// A font family may be quoted with single or double quotes: the quotes go
/// and the name stays.
pub proof fn law_font_family_quotes(n: Seq<char>)
    requires
        n.len() > 0,
        n[0] != '\'' && n[0] != '"',
        n.last() != '\'' && n.last() != '"',
    ensures
        font_family_of(n) == n,
        font_family_of(seq!['\''] + n + seq!['\'']) == n,
        font_family_of(seq!['"'] + n + seq!['"']) == n,
{
    assert(n[n.len() - 1] == n.last());
    assert(strip_leading(n, '\'') == n);
    assert(strip_trailing(n, '\'') == n);
    assert(strip_leading(n, '"') == n);
    assert(strip_trailing(n, '"') == n);
    let a = seq!['\''] + n + seq!['\''];
    assert(a.drop_first() =~= n + seq!['\'']);
    assert((n + seq!['\'']).drop_last() =~= n);
    assert((n + seq!['\''])[0] == n[0]);
    assert(strip_leading(n + seq!['\''], '\'') == n + seq!['\'']);
    let b = seq!['"'] + n + seq!['"'];
    assert(b.drop_first() =~= n + seq!['"']);
    assert((n + seq!['"']).drop_last() =~= n);
    assert((n + seq!['"'])[0] == n[0]);
    assert(strip_leading(n + seq!['"'], '"') == n + seq!['"']);
    assert(strip_leading(b, '\'') == b);
    assert(strip_trailing(b, '\'') == b);
}

/// A font weight is a number, read as such, or one of the keywords `bold`
/// (700) and `normal` (400).
pub proof fn law_font_weights(value: Seq<char>)
    ensures
        parse_u16_chars(value) is Some ==> font_weight_of(value) == parse_u16_chars(value),
        font_weight_of("bold"@) == Some(700u16),
        font_weight_of("normal"@) == Some(400u16),
        parse_u16_chars(value) is None && value != "bold"@ && value != "normal"@ ==> font_weight_of(value)
            is None,
{
    reveal_strlit("bold");
    reveal_strlit("normal");
    assert("bold"@[3] == 'd');
    assert(!all_decimal_digits("bold"@));
    assert("normal"@[5] == 'l');
    assert(!all_decimal_digits("normal"@));
    assert("bold"@.len() != "normal"@.len());
}

} // verus!
