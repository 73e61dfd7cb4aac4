use quick::noctalia::{NoctaliaPalette, NoctaliaRadius};
use quick::render::{get_fallback_glyph_bitmap, RenderPipeline};

#[test]
fn palettes_have_their_names() {
    assert_eq!(NoctaliaPalette::noctalia_dark().name, "Noctalia (Dark)");
    assert!(NoctaliaPalette::noctalia_dark().is_dark);
    assert!(!NoctaliaPalette::noctalia_light().is_dark);
    assert!(NoctaliaPalette::catppuccin_mocha().is_dark);
    assert!(NoctaliaPalette::tokyo_night().is_dark);
}

#[test]
fn palette_css_lists_variables() {
    let css = NoctaliaPalette::noctalia_dark().generate_css();
    assert!(css.starts_with(":root {\n"));
    assert!(css.contains("--noctalia-primary: #"));
    assert!(css.ends_with("--noctalia-radius-pill: 9999px;\n}"));
}

#[test]
fn noctalia_radii_ascend() {
    assert!(NoctaliaRadius::NONE < NoctaliaRadius::XS);
    assert!(NoctaliaRadius::XL < NoctaliaRadius::PILL);
}

#[test]
fn fallback_glyphs() {
    let _p = RenderPipeline::new();
    let space = get_fallback_glyph_bitmap(' ');
    assert_eq!(space, [0u8; 12]);
    assert_eq!(get_fallback_glyph_bitmap('\u{2603}'), [0u8; 12]);
    assert_eq!(get_fallback_glyph_bitmap('+'), [0x00, 0x18, 0x18, 0x7E, 0x7E, 0x18, 0x18, 0, 0, 0, 0, 0]);
}

#[test]
fn default_palette_is_the_dark_one() {
    let p = NoctaliaPalette::default();
    assert_eq!(p, NoctaliaPalette::noctalia_dark());
    assert!(p.is_dark);
    assert_eq!(p.name, "Noctalia (Dark)");
}
