//! The neutral gray scale and accent colors of the Fluent base theme.
use vstd::prelude::*;
use crate::color::Color;

verus! {

/// The gray levels of the neutral scale, lightest first: the steps `n0`,
/// `n10`, ..., `n100` are the opaque grays of levels 0, 1, ..., 10.
pub open spec fn neutral_levels() -> Seq<u8> {
    seq![250, 245, 238, 224, 189, 158, 117, 97, 66, 33, 26]
}

/// The opaque gray of the neutral scale's `k`-th level.
pub open spec fn neutral_gray(k: int) -> Color {
    Color { r: neutral_levels()[k], g: neutral_levels()[k], b: neutral_levels()[k], a: 255 }
}

/// The neutral scale runs from light to dark: each step is strictly darker
/// than the one before, from near-white `n0` to near-black `n100`.
pub proof fn law_neutral_scale_darkens()
    ensures
        neutral_levels().len() == 11,
        forall|i: int, j: int| 0 <= i < j < 11 ==> neutral_levels()[j] < neutral_levels()[i],
        neutral_levels()[0] > 240 && neutral_levels()[10] < 32,
{
    let l = neutral_levels();
    assert forall|i: int, j: int| 0 <= i < j < 11 implies l[j] < l[i] by {
        assert(l[0] == 250 && l[1] == 245 && l[2] == 238 && l[3] == 224 && l[4] == 189 && l[5] == 158
            && l[6] == 117 && l[7] == 97 && l[8] == 66 && l[9] == 33 && l[10] == 26);
    }
}

/// Eleven-step neutral gray scale (light to dark), dark-mode surfaces and
/// text, the default accent and the semantic colors.
pub struct NeutralPalette;

impl NeutralPalette {
    /// #FAFAFA
    pub fn n0() -> (c: Color)
        ensures
            c == (Color { r: 250, g: 250, b: 250, a: 255 }),
            c == neutral_gray(0),
    {
        Color { r: 250, g: 250, b: 250, a: 255 }
    }

    /// #F5F5F5
    pub fn n10() -> (c: Color)
        ensures
            c == (Color { r: 245, g: 245, b: 245, a: 255 }),
            c == neutral_gray(1),
    {
        Color { r: 245, g: 245, b: 245, a: 255 }
    }

    /// #EEEEEE
    pub fn n20() -> (c: Color)
        ensures
            c == (Color { r: 238, g: 238, b: 238, a: 255 }),
            c == neutral_gray(2),
    {
        Color { r: 238, g: 238, b: 238, a: 255 }
    }

    /// #E0E0E0 — default border
    pub fn n30() -> (c: Color)
        ensures
            c == (Color { r: 224, g: 224, b: 224, a: 255 }),
            c == neutral_gray(3),
    {
        Color { r: 224, g: 224, b: 224, a: 255 }
    }

    /// #BDBDBD
    pub fn n40() -> (c: Color)
        ensures
            c == (Color { r: 189, g: 189, b: 189, a: 255 }),
            c == neutral_gray(4),
    {
        Color { r: 189, g: 189, b: 189, a: 255 }
    }

    /// #9E9E9E — placeholder text
    pub fn n50() -> (c: Color)
        ensures
            c == (Color { r: 158, g: 158, b: 158, a: 255 }),
            c == neutral_gray(5),
    {
        Color { r: 158, g: 158, b: 158, a: 255 }
    }

    /// #757575 — secondary text
    pub fn n60() -> (c: Color)
        ensures
            c == (Color { r: 117, g: 117, b: 117, a: 255 }),
            c == neutral_gray(6),
    {
        Color { r: 117, g: 117, b: 117, a: 255 }
    }

    /// #616161
    pub fn n70() -> (c: Color)
        ensures
            c == (Color { r: 97, g: 97, b: 97, a: 255 }),
            c == neutral_gray(7),
    {
        Color { r: 97, g: 97, b: 97, a: 255 }
    }

    /// #424242 — body text light
    pub fn n80() -> (c: Color)
        ensures
            c == (Color { r: 66, g: 66, b: 66, a: 255 }),
            c == neutral_gray(8),
    {
        Color { r: 66, g: 66, b: 66, a: 255 }
    }

    /// #212121 — heading text
    pub fn n90() -> (c: Color)
        ensures
            c == (Color { r: 33, g: 33, b: 33, a: 255 }),
            c == neutral_gray(9),
    {
        Color { r: 33, g: 33, b: 33, a: 255 }
    }

    /// #1A1A1A — near-black
    pub fn n100() -> (c: Color)
        ensures
            c == (Color { r: 26, g: 26, b: 26, a: 255 }),
            c == neutral_gray(10),
    {
        Color { r: 26, g: 26, b: 26, a: 255 }
    }

    /// #1C1C1C
    pub fn dark_surface() -> (c: Color)
        ensures
            c == (Color { r: 28, g: 28, b: 28, a: 255 }),
    {
        Color { r: 28, g: 28, b: 28, a: 255 }
    }

    /// #262626
    pub fn dark_surface_raised() -> (c: Color)
        ensures
            c == (Color { r: 38, g: 38, b: 38, a: 255 }),
    {
        Color { r: 38, g: 38, b: 38, a: 255 }
    }

    /// #303030
    pub fn dark_surface_high() -> (c: Color)
        ensures
            c == (Color { r: 48, g: 48, b: 48, a: 255 }),
    {
        Color { r: 48, g: 48, b: 48, a: 255 }
    }

    /// #404040
    pub fn dark_border() -> (c: Color)
        ensures
            c == (Color { r: 64, g: 64, b: 64, a: 255 }),
    {
        Color { r: 64, g: 64, b: 64, a: 255 }
    }

    /// #E6E6E6
    pub fn dark_text_primary() -> (c: Color)
        ensures
            c == (Color { r: 230, g: 230, b: 230, a: 255 }),
    {
        Color { r: 230, g: 230, b: 230, a: 255 }
    }

    /// #A0A0A0
    pub fn dark_text_secondary() -> (c: Color)
        ensures
            c == (Color { r: 160, g: 160, b: 160, a: 255 }),
    {
        Color { r: 160, g: 160, b: 160, a: 255 }
    }

    /// #0078D4
    pub fn accent_default() -> (c: Color)
        ensures
            c == (Color { r: 0, g: 120, b: 212, a: 255 }),
    {
        Color { r: 0, g: 120, b: 212, a: 255 }
    }

    /// #1089E3
    pub fn accent_hover() -> (c: Color)
        ensures
            c == (Color { r: 16, g: 137, b: 227, a: 255 }),
    {
        Color { r: 16, g: 137, b: 227, a: 255 }
    }

    /// #0066B4
    pub fn accent_pressed() -> (c: Color)
        ensures
            c == (Color { r: 0, g: 102, b: 180, a: 255 }),
    {
        Color { r: 0, g: 102, b: 180, a: 255 }
    }

    /// #BDBDBD
    pub fn accent_disabled() -> (c: Color)
        ensures
            c == (Color { r: 189, g: 189, b: 189, a: 255 }),
    {
        Color { r: 189, g: 189, b: 189, a: 255 }
    }

    /// #C42B1C
    pub fn error() -> (c: Color)
        ensures
            c == (Color { r: 196, g: 43, b: 28, a: 255 }),
    {
        Color { r: 196, g: 43, b: 28, a: 255 }
    }

    /// #0F9D58
    pub fn success() -> (c: Color)
        ensures
            c == (Color { r: 15, g: 157, b: 88, a: 255 }),
    {
        Color { r: 15, g: 157, b: 88, a: 255 }
    }

    /// #FFB900
    pub fn warning() -> (c: Color)
        ensures
            c == (Color { r: 255, g: 185, b: 0, a: 255 }),
    {
        Color { r: 255, g: 185, b: 0, a: 255 }
    }
}

/// Hover brightening of one channel: +10 %, capped at 255 (what the
/// single-precision product `x * 1.1`, capped and truncated, gives).
pub open spec fn hover_channel(x: u8) -> u8 {
    if x * 11 / 10 > 255 {
        255
    } else {
        (x * 11 / 10) as u8
    }
}

/// Pressed darkening of one channel: -15 % (what the single-precision
/// product `x * 0.85`, truncated, gives).
pub open spec fn pressed_channel(x: u8) -> u8 {
    (x * 17 / 20) as u8
}

/// The colors whose weighted sum `299 r + 587 g + 114 b` is exactly 128000
/// but whose single-precision luminance `0.299 r + 0.587 g + 0.114 b` rounds
/// to just below 128.
pub open spec fn luminance_rounds_below_boundary(r: u8, g: u8, b: u8) -> bool {
    ||| (r == 75 && g == 175 && b == 25)
    ||| (r == 94 && g == 156 && b == 73)
    ||| (r == 113 && g == 137 && b == 121)
    ||| (r == 132 && g == 118 && b == 169)
    ||| (r == 199 && g == 93 && b == 122)
    ||| (r == 202 && g == 114 && b == 6)
    ||| (r == 218 && g == 74 && b == 170)
    ||| (r == 237 && g == 55 && b == 218)
}

/// Whether a color is dark enough for white text: its single-precision
/// luminance `0.299 r + 0.587 g + 0.114 b` is below 128.
pub open spec fn is_dark_accent(r: u8, g: u8, b: u8) -> bool {
    299 * r + 587 * g + 114 * b < 128000 || luminance_rounds_below_boundary(r, g, b)
}

/// The accent color and the variants derived from it.
#[derive(Debug, Clone, Copy, PartialEq, Eq, Structural)]
pub struct AccentColors {
    pub normal: Color,
    pub hover: Color,
    pub pressed: Color,
    pub disabled: Color,
    pub on_accent: Color,
}

/// The variants `AccentColors::from_color` derives from `accent`.
pub open spec fn accent_colors_of(accent: Color) -> AccentColors {
    AccentColors {
        normal: accent,
        hover: Color {
            r: hover_channel(accent.r),
            g: hover_channel(accent.g),
            b: hover_channel(accent.b),
            a: 255,
        },
        pressed: Color {
            r: pressed_channel(accent.r),
            g: pressed_channel(accent.g),
            b: pressed_channel(accent.b),
            a: 255,
        },
        disabled: Color { r: 189, g: 189, b: 189, a: 255 },
        on_accent: if is_dark_accent(accent.r, accent.g, accent.b) {
            Color { r: 255, g: 255, b: 255, a: 255 }
        } else {
            Color { r: 33, g: 33, b: 33, a: 255 }
        },
    }
}

fn hover_of(x: u8) -> (y: u8)
    ensures
        y == hover_channel(x),
{
    let v: u32 = (x as u32) * 11 / 10;
    if v > 255 {
        255
    } else {
        v as u8
    }
}

fn pressed_of(x: u8) -> (y: u8)
    ensures
        y == pressed_channel(x),
{
    ((x as u32) * 17 / 20) as u8
}

impl AccentColors {
    /// Derives hover (+10 %), pressed (-15 %) and on-accent colors (white
    /// on dark accents, near-black on light ones) from an accent color;
    /// alpha of the derived colors is 255.
    pub fn from_color(accent: Color) -> (ac: AccentColors)
        ensures
            ac == accent_colors_of(accent),
    {
        let r = accent.r;
        let g = accent.g;
        let b = accent.b;
        let hover = Color::from_rgb(hover_of(r), hover_of(g), hover_of(b));
        let pressed = Color::from_rgb(pressed_of(r), pressed_of(g), pressed_of(b));
        let weighted: u32 = 299 * (r as u32) + 587 * (g as u32) + 114 * (b as u32);
        let rounds_below = (r == 75 && g == 175 && b == 25) || (r == 94 && g == 156 && b == 73)
            || (r == 113 && g == 137 && b == 121) || (r == 132 && g == 118 && b == 169) || (r
            == 199 && g == 93 && b == 122) || (r == 202 && g == 114 && b == 6) || (r == 218 && g
            == 74 && b == 170) || (r == 237 && g == 55 && b == 218);
        let on_accent = if weighted < 128000 || rounds_below {
            Color::white()
        } else {
            NeutralPalette::n90()
        };
        AccentColors {
            normal: accent,
            hover,
            pressed,
            disabled: NeutralPalette::accent_disabled(),
            on_accent,
        }
    }
}

impl Default for AccentColors {
    /// The Fluent default blue accent with its variants.
    fn default() -> (ac: AccentColors)
        ensures
            ac == (AccentColors {
                normal: Color { r: 0, g: 120, b: 212, a: 255 },
                hover: Color { r: 16, g: 137, b: 227, a: 255 },
                pressed: Color { r: 0, g: 102, b: 180, a: 255 },
                disabled: Color { r: 189, g: 189, b: 189, a: 255 },
                on_accent: Color { r: 255, g: 255, b: 255, a: 255 },
            }),
    {
        AccentColors {
            normal: NeutralPalette::accent_default(),
            hover: NeutralPalette::accent_hover(),
            pressed: NeutralPalette::accent_pressed(),
            disabled: NeutralPalette::accent_disabled(),
            on_accent: Color::white(),
        }
    }
}

/// Hover variants are never darker, and pressed variants never lighter, than
/// the accent they come from, channel by channel.
pub proof fn law_hover_lightens_pressed_darkens(accent: Color)
    ensures
        accent_colors_of(accent).hover.r >= accent.r,
        accent_colors_of(accent).hover.g >= accent.g,
        accent_colors_of(accent).hover.b >= accent.b,
        accent_colors_of(accent).pressed.r <= accent.r,
        accent_colors_of(accent).pressed.g <= accent.g,
        accent_colors_of(accent).pressed.b <= accent.b,
{
    assert forall|x: u8| #[trigger] hover_channel(x) >= x && pressed_channel(x) <= x by {
        assert(x * 11 / 10 >= x) by (nonlinear_arith);
        assert(x * 17 / 20 <= x) by (nonlinear_arith);
    }
}

/// The derived accent colors: `normal` is the accent itself; hover is at
/// least as bright and pressed at most as bright in every channel, hover
/// strictly brighter where a channel has room (at least 10 and at most 231)
/// and pressed strictly darker where a channel is not zero; both are opaque;
/// text on the accent is white on dark accents (weighted luminance below
/// 128) and near-black on light ones (above 128).
pub proof fn law_accent_variants(accent: Color)
    ensures
        accent_colors_of(accent).normal == accent,
        accent_colors_of(accent).hover.a == 255 && accent_colors_of(accent).pressed.a == 255,
        10 <= accent.r <= 231 ==> accent_colors_of(accent).hover.r > accent.r,
        10 <= accent.g <= 231 ==> accent_colors_of(accent).hover.g > accent.g,
        10 <= accent.b <= 231 ==> accent_colors_of(accent).hover.b > accent.b,
        accent.r > 0 ==> accent_colors_of(accent).pressed.r < accent.r,
        accent.g > 0 ==> accent_colors_of(accent).pressed.g < accent.g,
        accent.b > 0 ==> accent_colors_of(accent).pressed.b < accent.b,
        accent_colors_of(accent).pressed.r <= accent_colors_of(accent).hover.r,
        299 * accent.r + 587 * accent.g + 114 * accent.b < 128000 ==> accent_colors_of(accent).on_accent
            == (Color { r: 255, g: 255, b: 255, a: 255 }),
        299 * accent.r + 587 * accent.g + 114 * accent.b > 128000 ==> accent_colors_of(accent).on_accent
            == (Color { r: 33, g: 33, b: 33, a: 255 }),
{
    assert(accent.r * 11 / 10 >= accent.r);
    assert(accent.g * 11 / 10 >= accent.g);
    assert(accent.b * 11 / 10 >= accent.b);
    assert(accent.r * 17 / 20 <= accent.r);
}

} // verus!
