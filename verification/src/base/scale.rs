//! Size scales of the Fluent-style base theme: corner radii, spacing, type
//! sizes and font weights. Sizes are whole device-independent pixels.
use vstd::prelude::*;

verus! {

/// Corner radius steps.
pub struct RadiusScale;

impl RadiusScale {
    pub const NONE: u16 = 0;

    /// Tooltips, badges.
    pub const XS: u16 = 2;

    /// Text inputs, snackbars.
    pub const SM: u16 = 4;

    /// Cards, dialogs.
    pub const MD: u16 = 8;

    /// Large cards.
    pub const LG: u16 = 12;

    /// Bottom sheets, large dialogs.
    pub const XL: u16 = 16;

    /// Buttons, chips, badges: large enough to round a whole side.
    pub const PILL: u16 = 9999;
}

/// Spacing steps on a 4px grid.
pub struct SpacingScale;

impl SpacingScale {
    pub const XS: u16 = 4;

    pub const SM: u16 = 8;

    pub const MD: u16 = 12;

    pub const LG: u16 = 16;

    pub const XL: u16 = 20;

    pub const XXL: u16 = 24;

    pub const XXXL: u16 = 32;

    pub const XXXXL: u16 = 48;
}

/// Font size steps.
pub struct TypeScale;

impl TypeScale {
    /// Metadata, timestamps.
    pub const CAPTION: u16 = 11;

    /// Default body text.
    pub const BODY: u16 = 14;

    /// Prominent body text, list items.
    pub const BODY_LARGE: u16 = 16;

    /// Section headers.
    pub const TITLE: u16 = 18;

    /// Dialog titles.
    pub const TITLE_LARGE: u16 = 22;

    /// Page headlines.
    pub const DISPLAY: u16 = 28;

    /// Hero text.
    pub const DISPLAY_LARGE: u16 = 34;

    /// Button labels.
    pub const BUTTON: u16 = TypeScale::BODY;

    /// Input placeholders and values.
    pub const INPUT: u16 = TypeScale::BODY;

    /// Chip labels.
    pub const CHIP: u16 = 13;
}

/// Named font weights (CSS numeric weights).
pub struct FontWeight;

impl FontWeight {
    pub const REGULAR: u16 = 400;

    pub const MEDIUM: u16 = 500;

    pub const SEMIBOLD: u16 = 600;

    pub const BOLD: u16 = 700;
}

/// The scales climb step by step: radii from none to pill, spacing on the
/// 4 px grid from the smallest to the largest step, type sizes from caption
/// to display, weights from regular to bold; buttons and inputs use body
/// text and chips sit between caption and body.
pub proof fn law_scales_ascend()
    ensures
        RadiusScale::NONE < RadiusScale::XS < RadiusScale::SM < RadiusScale::MD < RadiusScale::LG
            < RadiusScale::XL < RadiusScale::PILL,
        SpacingScale::XS < SpacingScale::SM < SpacingScale::MD < SpacingScale::LG < SpacingScale::XL
            < SpacingScale::XXL < SpacingScale::XXXL < SpacingScale::XXXXL,
        SpacingScale::XS % 4 == 0 && SpacingScale::SM % 4 == 0 && SpacingScale::MD % 4 == 0
            && SpacingScale::LG % 4 == 0 && SpacingScale::XL % 4 == 0 && SpacingScale::XXL % 4 == 0
            && SpacingScale::XXXL % 4 == 0 && SpacingScale::XXXXL % 4 == 0,
        TypeScale::CAPTION < TypeScale::CHIP < TypeScale::BODY < TypeScale::BODY_LARGE
            < TypeScale::TITLE < TypeScale::TITLE_LARGE < TypeScale::DISPLAY
            < TypeScale::DISPLAY_LARGE,
        TypeScale::BUTTON == TypeScale::BODY && TypeScale::INPUT == TypeScale::BODY,
        FontWeight::REGULAR < FontWeight::MEDIUM < FontWeight::SEMIBOLD < FontWeight::BOLD,
        FontWeight::REGULAR % 100 == 0 && FontWeight::MEDIUM % 100 == 0 && FontWeight::SEMIBOLD
            % 100 == 0 && FontWeight::BOLD % 100 == 0,
{
}

} // verus!
