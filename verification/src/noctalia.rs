//! Noctalia brand palettes and the CSS custom properties they define.
use vstd::prelude::*;
use crate::color::{hex_text, Color};
use crate::text::push_str;

verus! {

/// A named palette of sixteen color roles.
#[derive(Debug, Clone, PartialEq)]
pub struct NoctaliaPalette {
    pub name: String,
    pub is_dark: bool,
    pub primary: Color,
    pub on_primary: Color,
    pub secondary: Color,
    pub on_secondary: Color,
    pub tertiary: Color,
    pub on_tertiary: Color,
    pub error: Color,
    pub on_error: Color,
    pub surface: Color,
    pub on_surface: Color,
    pub surface_variant: Color,
    pub on_surface_variant: Color,
    pub outline: Color,
    pub shadow: Color,
    pub hover: Color,
    pub on_hover: Color,
}

/// The CSS custom properties of a palette: one `--noctalia-<role>` per
/// color role, as `#RRGGBB[AA]`, and the four radius properties, inside a
/// `:root` block.
pub open spec fn noctalia_css(p: NoctaliaPalette) -> Seq<char> {
    ":root {\n"@
        + "--noctalia-primary: "@ + hex_text(p.primary) + ";\n"@
        + "--noctalia-on-primary: "@ + hex_text(p.on_primary) + ";\n"@
        + "--noctalia-secondary: "@ + hex_text(p.secondary) + ";\n"@
        + "--noctalia-on-secondary: "@ + hex_text(p.on_secondary) + ";\n"@
        + "--noctalia-tertiary: "@ + hex_text(p.tertiary) + ";\n"@
        + "--noctalia-on-tertiary: "@ + hex_text(p.on_tertiary) + ";\n"@
        + "--noctalia-error: "@ + hex_text(p.error) + ";\n"@
        + "--noctalia-on-error: "@ + hex_text(p.on_error) + ";\n"@
        + "--noctalia-surface: "@ + hex_text(p.surface) + ";\n"@
        + "--noctalia-on-surface: "@ + hex_text(p.on_surface) + ";\n"@
        + "--noctalia-surface-variant: "@ + hex_text(p.surface_variant) + ";\n"@
        + "--noctalia-on-surface-variant: "@ + hex_text(p.on_surface_variant) + ";\n"@
        + "--noctalia-outline: "@ + hex_text(p.outline) + ";\n"@
        + "--noctalia-shadow: "@ + hex_text(p.shadow) + ";\n"@
        + "--noctalia-hover: "@ + hex_text(p.hover) + ";\n"@
        + "--noctalia-on-hover: "@ + hex_text(p.on_hover) + ";\n"@
        + "--noctalia-radius-xs: 4px;\n--noctalia-radius-md: 8px;\n--noctalia-radius-xl: 12px;\n--noctalia-radius-pill: 9999px;\n}"@
}

impl NoctaliaPalette {
    /// The Noctalia dark palette: warm gold primary, midnight navy surface, mint tertiary.
    pub fn noctalia_dark() -> (p: NoctaliaPalette)
        ensures
            p.name@ == "Noctalia (Dark)"@,
            p.is_dark == true,
            p.primary == (Color { r: 255, g: 245, b: 155, a: 255 }),
            p.on_primary == (Color { r: 14, g: 14, b: 67, a: 255 }),
            p.secondary == (Color { r: 169, g: 174, b: 254, a: 255 }),
            p.on_secondary == (Color { r: 14, g: 14, b: 67, a: 255 }),
            p.tertiary == (Color { r: 155, g: 254, b: 206, a: 255 }),
            p.on_tertiary == (Color { r: 14, g: 14, b: 67, a: 255 }),
            p.error == (Color { r: 253, g: 70, b: 99, a: 255 }),
            p.on_error == (Color { r: 14, g: 14, b: 67, a: 255 }),
            p.surface == (Color { r: 7, g: 7, b: 34, a: 255 }),
            p.on_surface == (Color { r: 243, g: 237, b: 247, a: 255 }),
            p.surface_variant == (Color { r: 17, g: 17, b: 45, a: 255 }),
            p.on_surface_variant == (Color { r: 124, g: 128, b: 180, a: 255 }),
            p.outline == (Color { r: 33, g: 33, b: 95, a: 255 }),
            p.shadow == (Color { r: 7, g: 7, b: 34, a: 255 }),
            p.hover == (Color { r: 155, g: 254, b: 206, a: 255 }),
            p.on_hover == (Color { r: 14, g: 14, b: 67, a: 255 }),
    {
        let mut name = String::new();
        push_str(&mut name, "Noctalia (Dark)");
        NoctaliaPalette {
            name,
            is_dark: true,
            primary: Color::from_rgb(255, 245, 155),
            on_primary: Color::from_rgb(14, 14, 67),
            secondary: Color::from_rgb(169, 174, 254),
            on_secondary: Color::from_rgb(14, 14, 67),
            tertiary: Color::from_rgb(155, 254, 206),
            on_tertiary: Color::from_rgb(14, 14, 67),
            error: Color::from_rgb(253, 70, 99),
            on_error: Color::from_rgb(14, 14, 67),
            surface: Color::from_rgb(7, 7, 34),
            on_surface: Color::from_rgb(243, 237, 247),
            surface_variant: Color::from_rgb(17, 17, 45),
            on_surface_variant: Color::from_rgb(124, 128, 180),
            outline: Color::from_rgb(33, 33, 95),
            shadow: Color::from_rgb(7, 7, 34),
            hover: Color::from_rgb(155, 254, 206),
            on_hover: Color::from_rgb(14, 14, 67),
        }
    }

    /// The Noctalia light palette.
    pub fn noctalia_light() -> (p: NoctaliaPalette)
        ensures
            p.name@ == "Noctalia (Light)"@,
            p.is_dark == false,
            p.primary == (Color { r: 93, g: 101, b: 245, a: 255 }),
            p.on_primary == (Color { r: 218, g: 220, b: 255, a: 255 }),
            p.secondary == (Color { r: 142, g: 147, b: 216, a: 255 }),
            p.on_secondary == (Color { r: 218, g: 220, b: 255, a: 255 }),
            p.tertiary == (Color { r: 14, g: 14, b: 67, a: 255 }),
            p.on_tertiary == (Color { r: 254, g: 242, b: 154, a: 255 }),
            p.error == (Color { r: 253, g: 70, b: 99, a: 255 }),
            p.on_error == (Color { r: 14, g: 14, b: 67, a: 255 }),
            p.surface == (Color { r: 230, g: 232, b: 250, a: 255 }),
            p.on_surface == (Color { r: 14, g: 14, b: 67, a: 255 }),
            p.surface_variant == (Color { r: 239, g: 240, b: 255, a: 255 }),
            p.on_surface_variant == (Color { r: 75, g: 85, b: 200, a: 255 }),
            p.outline == (Color { r: 130, g: 136, b: 252, a: 255 }),
            p.shadow == (Color { r: 204, g: 204, b: 204, a: 255 }),
            p.hover == (Color { r: 93, g: 101, b: 245, a: 255 }),
            p.on_hover == (Color { r: 255, g: 255, b: 255, a: 255 }),
    {
        let mut name = String::new();
        push_str(&mut name, "Noctalia (Light)");
        NoctaliaPalette {
            name,
            is_dark: false,
            primary: Color::from_rgb(93, 101, 245),
            on_primary: Color::from_rgb(218, 220, 255),
            secondary: Color::from_rgb(142, 147, 216),
            on_secondary: Color::from_rgb(218, 220, 255),
            tertiary: Color::from_rgb(14, 14, 67),
            on_tertiary: Color::from_rgb(254, 242, 154),
            error: Color::from_rgb(253, 70, 99),
            on_error: Color::from_rgb(14, 14, 67),
            surface: Color::from_rgb(230, 232, 250),
            on_surface: Color::from_rgb(14, 14, 67),
            surface_variant: Color::from_rgb(239, 240, 255),
            on_surface_variant: Color::from_rgb(75, 85, 200),
            outline: Color::from_rgb(130, 136, 252),
            shadow: Color::from_rgb(204, 204, 204),
            hover: Color::from_rgb(93, 101, 245),
            on_hover: Color::from_rgb(255, 255, 255),
        }
    }

    /// The Catppuccin Mocha palette.
    pub fn catppuccin_mocha() -> (p: NoctaliaPalette)
        ensures
            p.name@ == "Catppuccin Mocha"@,
            p.is_dark == true,
            p.primary == (Color { r: 203, g: 166, b: 247, a: 255 }),
            p.on_primary == (Color { r: 30, g: 30, b: 46, a: 255 }),
            p.secondary == (Color { r: 137, g: 180, b: 250, a: 255 }),
            p.on_secondary == (Color { r: 30, g: 30, b: 46, a: 255 }),
            p.tertiary == (Color { r: 166, g: 227, b: 161, a: 255 }),
            p.on_tertiary == (Color { r: 30, g: 30, b: 46, a: 255 }),
            p.error == (Color { r: 243, g: 139, b: 168, a: 255 }),
            p.on_error == (Color { r: 30, g: 30, b: 46, a: 255 }),
            p.surface == (Color { r: 30, g: 30, b: 46, a: 255 }),
            p.on_surface == (Color { r: 205, g: 214, b: 244, a: 255 }),
            p.surface_variant == (Color { r: 49, g: 50, b: 68, a: 255 }),
            p.on_surface_variant == (Color { r: 166, g: 173, b: 200, a: 255 }),
            p.outline == (Color { r: 69, g: 71, b: 90, a: 255 }),
            p.shadow == (Color { r: 17, g: 17, b: 27, a: 255 }),
            p.hover == (Color { r: 245, g: 224, b: 220, a: 255 }),
            p.on_hover == (Color { r: 30, g: 30, b: 46, a: 255 }),
    {
        let mut name = String::new();
        push_str(&mut name, "Catppuccin Mocha");
        NoctaliaPalette {
            name,
            is_dark: true,
            primary: Color::from_rgb(203, 166, 247),
            on_primary: Color::from_rgb(30, 30, 46),
            secondary: Color::from_rgb(137, 180, 250),
            on_secondary: Color::from_rgb(30, 30, 46),
            tertiary: Color::from_rgb(166, 227, 161),
            on_tertiary: Color::from_rgb(30, 30, 46),
            error: Color::from_rgb(243, 139, 168),
            on_error: Color::from_rgb(30, 30, 46),
            surface: Color::from_rgb(30, 30, 46),
            on_surface: Color::from_rgb(205, 214, 244),
            surface_variant: Color::from_rgb(49, 50, 68),
            on_surface_variant: Color::from_rgb(166, 173, 200),
            outline: Color::from_rgb(69, 71, 90),
            shadow: Color::from_rgb(17, 17, 27),
            hover: Color::from_rgb(245, 224, 220),
            on_hover: Color::from_rgb(30, 30, 46),
        }
    }

    /// The Tokyo Night palette.
    pub fn tokyo_night() -> (p: NoctaliaPalette)
        ensures
            p.name@ == "Tokyo Night"@,
            p.is_dark == true,
            p.primary == (Color { r: 122, g: 162, b: 247, a: 255 }),
            p.on_primary == (Color { r: 26, g: 27, b: 38, a: 255 }),
            p.secondary == (Color { r: 187, g: 154, b: 247, a: 255 }),
            p.on_secondary == (Color { r: 26, g: 27, b: 38, a: 255 }),
            p.tertiary == (Color { r: 125, g: 207, b: 255, a: 255 }),
            p.on_tertiary == (Color { r: 26, g: 27, b: 38, a: 255 }),
            p.error == (Color { r: 247, g: 118, b: 142, a: 255 }),
            p.on_error == (Color { r: 26, g: 27, b: 38, a: 255 }),
            p.surface == (Color { r: 26, g: 27, b: 38, a: 255 }),
            p.on_surface == (Color { r: 192, g: 202, b: 245, a: 255 }),
            p.surface_variant == (Color { r: 36, g: 40, b: 59, a: 255 }),
            p.on_surface_variant == (Color { r: 169, g: 177, b: 214, a: 255 }),
            p.outline == (Color { r: 65, g: 72, b: 104, a: 255 }),
            p.shadow == (Color { r: 16, g: 16, b: 26, a: 255 }),
            p.hover == (Color { r: 180, g: 249, b: 248, a: 255 }),
            p.on_hover == (Color { r: 26, g: 27, b: 38, a: 255 }),
    {
        let mut name = String::new();
        push_str(&mut name, "Tokyo Night");
        NoctaliaPalette {
            name,
            is_dark: true,
            primary: Color::from_rgb(122, 162, 247),
            on_primary: Color::from_rgb(26, 27, 38),
            secondary: Color::from_rgb(187, 154, 247),
            on_secondary: Color::from_rgb(26, 27, 38),
            tertiary: Color::from_rgb(125, 207, 255),
            on_tertiary: Color::from_rgb(26, 27, 38),
            error: Color::from_rgb(247, 118, 142),
            on_error: Color::from_rgb(26, 27, 38),
            surface: Color::from_rgb(26, 27, 38),
            on_surface: Color::from_rgb(192, 202, 245),
            surface_variant: Color::from_rgb(36, 40, 59),
            on_surface_variant: Color::from_rgb(169, 177, 214),
            outline: Color::from_rgb(65, 72, 104),
            shadow: Color::from_rgb(16, 16, 26),
            hover: Color::from_rgb(180, 249, 248),
            on_hover: Color::from_rgb(26, 27, 38),
        }
    }

    /// The palette as CSS custom properties in a `:root` block.
    pub fn generate_css(&self) -> (css: String)
        ensures
            css@ == noctalia_css(*self),
    {
        let mut css = String::new();
        push_str(&mut css, ":root {\n");
        push_str(&mut css, "--noctalia-primary: ");
        let h = self.primary.to_hex();
        push_str(&mut css, h.as_str());
        push_str(&mut css, ";\n");
        push_str(&mut css, "--noctalia-on-primary: ");
        let h = self.on_primary.to_hex();
        push_str(&mut css, h.as_str());
        push_str(&mut css, ";\n");
        push_str(&mut css, "--noctalia-secondary: ");
        let h = self.secondary.to_hex();
        push_str(&mut css, h.as_str());
        push_str(&mut css, ";\n");
        push_str(&mut css, "--noctalia-on-secondary: ");
        let h = self.on_secondary.to_hex();
        push_str(&mut css, h.as_str());
        push_str(&mut css, ";\n");
        push_str(&mut css, "--noctalia-tertiary: ");
        let h = self.tertiary.to_hex();
        push_str(&mut css, h.as_str());
        push_str(&mut css, ";\n");
        push_str(&mut css, "--noctalia-on-tertiary: ");
        let h = self.on_tertiary.to_hex();
        push_str(&mut css, h.as_str());
        push_str(&mut css, ";\n");
        push_str(&mut css, "--noctalia-error: ");
        let h = self.error.to_hex();
        push_str(&mut css, h.as_str());
        push_str(&mut css, ";\n");
        push_str(&mut css, "--noctalia-on-error: ");
        let h = self.on_error.to_hex();
        push_str(&mut css, h.as_str());
        push_str(&mut css, ";\n");
        push_str(&mut css, "--noctalia-surface: ");
        let h = self.surface.to_hex();
        push_str(&mut css, h.as_str());
        push_str(&mut css, ";\n");
        push_str(&mut css, "--noctalia-on-surface: ");
        let h = self.on_surface.to_hex();
        push_str(&mut css, h.as_str());
        push_str(&mut css, ";\n");
        push_str(&mut css, "--noctalia-surface-variant: ");
        let h = self.surface_variant.to_hex();
        push_str(&mut css, h.as_str());
        push_str(&mut css, ";\n");
        push_str(&mut css, "--noctalia-on-surface-variant: ");
        let h = self.on_surface_variant.to_hex();
        push_str(&mut css, h.as_str());
        push_str(&mut css, ";\n");
        push_str(&mut css, "--noctalia-outline: ");
        let h = self.outline.to_hex();
        push_str(&mut css, h.as_str());
        push_str(&mut css, ";\n");
        push_str(&mut css, "--noctalia-shadow: ");
        let h = self.shadow.to_hex();
        push_str(&mut css, h.as_str());
        push_str(&mut css, ";\n");
        push_str(&mut css, "--noctalia-hover: ");
        let h = self.hover.to_hex();
        push_str(&mut css, h.as_str());
        push_str(&mut css, ";\n");
        push_str(&mut css, "--noctalia-on-hover: ");
        let h = self.on_hover.to_hex();
        push_str(&mut css, h.as_str());
        push_str(&mut css, ";\n");
        push_str(
            &mut css,
            "--noctalia-radius-xs: 4px;\n--noctalia-radius-md: 8px;\n--noctalia-radius-xl: 12px;\n--noctalia-radius-pill: 9999px;\n}",
        );
        proof {
            assert(css@ =~= noctalia_css(*self));
        }
        css
    }
}

impl Default for NoctaliaPalette {
    /// The default palette is the dark one.
    fn default() -> (p: NoctaliaPalette)
        ensures
            p.name@ == "Noctalia (Dark)"@,
            p.is_dark == true,
            p.primary == (Color { r: 255, g: 245, b: 155, a: 255 }),
            p.on_primary == (Color { r: 14, g: 14, b: 67, a: 255 }),
            p.secondary == (Color { r: 169, g: 174, b: 254, a: 255 }),
            p.on_secondary == (Color { r: 14, g: 14, b: 67, a: 255 }),
            p.tertiary == (Color { r: 155, g: 254, b: 206, a: 255 }),
            p.on_tertiary == (Color { r: 14, g: 14, b: 67, a: 255 }),
            p.error == (Color { r: 253, g: 70, b: 99, a: 255 }),
            p.on_error == (Color { r: 14, g: 14, b: 67, a: 255 }),
            p.surface == (Color { r: 7, g: 7, b: 34, a: 255 }),
            p.on_surface == (Color { r: 243, g: 237, b: 247, a: 255 }),
            p.surface_variant == (Color { r: 17, g: 17, b: 45, a: 255 }),
            p.on_surface_variant == (Color { r: 124, g: 128, b: 180, a: 255 }),
            p.outline == (Color { r: 33, g: 33, b: 95, a: 255 }),
            p.shadow == (Color { r: 7, g: 7, b: 34, a: 255 }),
            p.hover == (Color { r: 155, g: 254, b: 206, a: 255 }),
            p.on_hover == (Color { r: 14, g: 14, b: 67, a: 255 }),
    {
        NoctaliaPalette::noctalia_dark()
    }
}

/// Corner radius steps of the Noctalia themes, in whole pixels.
pub struct NoctaliaRadius;

impl NoctaliaRadius {
    pub const NONE: u16 = 0;

    pub const XS: u16 = 4;

    pub const SM: u16 = 6;

    pub const MD: u16 = 8;

    pub const LG: u16 = 10;

    pub const XL: u16 = 12;

    pub const PILL: u16 = 9999;
}

} // verus!
