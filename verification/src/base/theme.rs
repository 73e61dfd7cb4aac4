//! The semantic colors of the base theme in light and dark mode.
use vstd::prelude::*;
use crate::base::palette::{AccentColors, NeutralPalette};
use crate::color::Color;

verus! {

/// Resolved set of semantic colors for a single color scheme (light OR dark).
#[derive(Debug, Clone, Copy, PartialEq, Eq, Structural)]
pub struct BaseColors {
    // Surfaces
    pub bg:               Color, // window/app background
    pub surface:          Color, // card, panel background
    pub surface_raised:   Color, // elevated surface (dropdown, popup)
    pub overlay:          Color, // modal scrim

    // Borders
    pub border:           Color, // default input/card border
    pub border_strong:    Color, // focused / hovered border
    pub divider:          Color, // subtle list dividers

    // Text
    pub text_primary:     Color,
    pub text_secondary:   Color,
    pub text_disabled:    Color,
    pub text_placeholder: Color,
    pub text_on_accent:   Color,

    // Accent (OS-resolved)
    pub accent:           AccentColors,

    // State
    pub hover_overlay:    Color, // hover fill on interactive items
    pub press_overlay:    Color, // pressed fill
    pub focus_ring:       Color, // keyboard focus indicator

    // Semantic
    pub error:            Color,
    pub success:          Color,
    pub warning:          Color,
}

/// The light-mode base colors around `accent`.
pub open spec fn light_base_colors(accent: AccentColors) -> BaseColors {
    BaseColors {
        bg: Color { r: 250, g: 250, b: 250, a: 255 },
        surface: Color { r: 245, g: 245, b: 245, a: 255 },
        surface_raised: Color { r: 255, g: 255, b: 255, a: 255 },
        overlay: Color { r: 0, g: 0, b: 0, a: 77 },
        border: Color { r: 224, g: 224, b: 224, a: 255 },
        border_strong: Color { r: 158, g: 158, b: 158, a: 255 },
        divider: Color { r: 238, g: 238, b: 238, a: 255 },
        text_primary: Color { r: 33, g: 33, b: 33, a: 255 },
        text_secondary: Color { r: 117, g: 117, b: 117, a: 255 },
        text_disabled: Color { r: 189, g: 189, b: 189, a: 255 },
        text_placeholder: Color { r: 158, g: 158, b: 158, a: 255 },
        text_on_accent: accent.on_accent,
        accent: accent,
        hover_overlay: Color { r: 0, g: 0, b: 0, a: 13 },
        press_overlay: Color { r: 0, g: 0, b: 0, a: 31 },
        focus_ring: Color { r: 0, g: 120, b: 212, a: 255 },
        error: Color { r: 196, g: 43, b: 28, a: 255 },
        success: Color { r: 15, g: 157, b: 88, a: 255 },
        warning: Color { r: 255, g: 185, b: 0, a: 255 },
    }
}

/// The dark-mode base colors around `accent`.
pub open spec fn dark_base_colors(accent: AccentColors) -> BaseColors {
    BaseColors {
        bg: Color { r: 28, g: 28, b: 28, a: 255 },
        surface: Color { r: 38, g: 38, b: 38, a: 255 },
        surface_raised: Color { r: 48, g: 48, b: 48, a: 255 },
        overlay: Color { r: 0, g: 0, b: 0, a: 128 },
        border: Color { r: 64, g: 64, b: 64, a: 255 },
        border_strong: Color { r: 158, g: 158, b: 158, a: 255 },
        divider: Color { r: 64, g: 64, b: 64, a: 255 },
        text_primary: Color { r: 230, g: 230, b: 230, a: 255 },
        text_secondary: Color { r: 160, g: 160, b: 160, a: 255 },
        text_disabled: Color { r: 117, g: 117, b: 117, a: 255 },
        text_placeholder: Color { r: 117, g: 117, b: 117, a: 255 },
        text_on_accent: accent.on_accent,
        accent: accent,
        hover_overlay: Color { r: 255, g: 255, b: 255, a: 13 },
        press_overlay: Color { r: 255, g: 255, b: 255, a: 31 },
        focus_ring: Color { r: 0, g: 120, b: 212, a: 255 },
        error: Color { r: 255, g: 153, b: 144, a: 255 },
        success: Color { r: 102, g: 204, b: 153, a: 255 },
        warning: Color { r: 255, g: 214, b: 102, a: 255 },
    }
}

impl BaseColors {
    /// Light surfaces and dark text around `accent`.
    pub fn light(accent: AccentColors) -> (c: BaseColors)
        ensures
            c == light_base_colors(accent),
    {
        Self {
            bg: NeutralPalette::n0(),
            surface: NeutralPalette::n10(),
            surface_raised: Color::white(),
            overlay: Color::from_rgba(0, 0, 0, 77),
            border: NeutralPalette::n30(),
            border_strong: NeutralPalette::n50(),
            divider: NeutralPalette::n20(),
            text_primary: NeutralPalette::n90(),
            text_secondary: NeutralPalette::n60(),
            text_disabled: NeutralPalette::n40(),
            text_placeholder: NeutralPalette::n50(),
            text_on_accent: accent.on_accent,
            accent,
            hover_overlay: Color::from_rgba(0, 0, 0, 13),
            press_overlay: Color::from_rgba(0, 0, 0, 31),
            focus_ring: NeutralPalette::accent_default(),
            error: NeutralPalette::error(),
            success: NeutralPalette::success(),
            warning: NeutralPalette::warning(),
        }
    }

    /// Dark surfaces and light text around `accent`.
    pub fn dark(accent: AccentColors) -> (c: BaseColors)
        ensures
            c == dark_base_colors(accent),
    {
        Self {
            bg: NeutralPalette::dark_surface(),
            surface: NeutralPalette::dark_surface_raised(),
            surface_raised: NeutralPalette::dark_surface_high(),
            overlay: Color::from_rgba(0, 0, 0, 128),
            border: NeutralPalette::dark_border(),
            border_strong: NeutralPalette::n50(),
            divider: NeutralPalette::dark_border(),
            text_primary: NeutralPalette::dark_text_primary(),
            text_secondary: NeutralPalette::dark_text_secondary(),
            text_disabled: NeutralPalette::n60(),
            text_placeholder: NeutralPalette::n60(),
            text_on_accent: accent.on_accent,
            accent,
            hover_overlay: Color::from_rgba(255, 255, 255, 13),
            press_overlay: Color::from_rgba(255, 255, 255, 31),
            focus_ring: NeutralPalette::accent_default(),
            error: Color::from_rgb(255, 153, 144),
            success: Color::from_rgb(102, 204, 153),
            warning: Color::from_rgb(255, 214, 102),
        }
    }
}

/// The base colors keep text readable and surfaces ordered: in light mode
/// the background is lighter than all text and the text fades from primary
/// to secondary to disabled as it gets lighter; in dark mode the background
/// is darker than all text, text fades as it gets darker, and raised
/// surfaces are lighter than the background. Both modes carry the accent
/// unchanged, put its on-accent color on accent-filled controls and draw the
/// focus ring in Fluent blue.
pub proof fn law_base_color_contrast(accent: AccentColors)
    ensures
        ({
            let l = light_base_colors(accent);
            &&& l.bg.r > l.text_disabled.r && l.text_disabled.r > l.text_secondary.r
                && l.text_secondary.r > l.text_primary.r
            &&& l.surface_raised.r >= l.bg.r
        }),
        ({
            let d = dark_base_colors(accent);
            &&& d.bg.r < d.text_disabled.r && d.text_disabled.r < d.text_secondary.r
                && d.text_secondary.r < d.text_primary.r
            &&& d.bg.r < d.surface.r && d.surface.r < d.surface_raised.r
        }),
        light_base_colors(accent).accent == accent && dark_base_colors(accent).accent == accent,
        light_base_colors(accent).text_on_accent == accent.on_accent
            && dark_base_colors(accent).text_on_accent == accent.on_accent,
        light_base_colors(accent).focus_ring == dark_base_colors(accent).focus_ring,
        light_base_colors(accent).focus_ring == (Color { r: 0, g: 120, b: 212, a: 255 }),
        light_base_colors(accent).hover_overlay.a < light_base_colors(accent).press_overlay.a,
        dark_base_colors(accent).hover_overlay.a < dark_base_colors(accent).press_overlay.a,
{
}

} // verus!
