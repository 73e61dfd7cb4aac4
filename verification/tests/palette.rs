use quick::base::system::{first_scheme_probe, kde_accent_in, next_scheme_step, text_contains, KdeAccent, SchemeProbe, SchemeStep};
use quick::base::system::{first_accent_probe, next_accent_step, AccentProbe, AccentStep};
use quick::base::palette::{AccentColors, NeutralPalette};
use quick::base::scale::{FontWeight, RadiusScale, SpacingScale, TypeScale};
use quick::base::system::{gnome_accent_from_output, ColorScheme, SystemColors};
use quick::base::theme::BaseColors;
use quick::color::Color;

#[test]
fn test_accent_colors_from_fluent_blue() {
    let ac = AccentColors::from_color(NeutralPalette::accent_default());
    assert_eq!(ac.on_accent, Color::white());
    assert!(ac.hover.r > ac.normal.r || ac.hover.g > ac.normal.g || ac.hover.b > ac.normal.b);
    assert!(ac.pressed.b < ac.normal.b);
}

#[test]
fn test_neutral_palette_ordering() {
    assert!(NeutralPalette::n0().r > NeutralPalette::n100().r);
}

#[test]
fn test_radii_ascending() {
    assert!(RadiusScale::NONE < RadiusScale::XS);
    assert!(RadiusScale::XS < RadiusScale::SM);
    assert!(RadiusScale::SM < RadiusScale::MD);
    assert!(RadiusScale::MD < RadiusScale::LG);
    assert!(RadiusScale::LG < RadiusScale::XL);
    assert!(RadiusScale::XL < RadiusScale::PILL);
}

#[test]
fn test_spacing_is_4px_grid() {
    for s in [
        SpacingScale::XS,
        SpacingScale::SM,
        SpacingScale::MD,
        SpacingScale::LG,
        SpacingScale::XL,
        SpacingScale::XXL,
        SpacingScale::XXXL,
    ] {
        assert_eq!(f32::from(s) % 4.0, 0.0, "{s} is not 4px-aligned");
    }
}

#[test]
fn test_typescale_ascending() {
    assert!(TypeScale::CAPTION < TypeScale::BODY);
    assert!(TypeScale::BODY < TypeScale::BODY_LARGE);
    assert!(TypeScale::BODY_LARGE < TypeScale::TITLE);
    assert!(TypeScale::TITLE < TypeScale::DISPLAY);
}

#[test]
fn scale_values() {
    assert_eq!(TypeScale::BUTTON, TypeScale::BODY);
    assert_eq!(TypeScale::INPUT, 14);
    assert_eq!(FontWeight::BOLD, 700);
    assert_eq!(SpacingScale::XXXXL, 48);
}

#[test]
fn accent_shades_follow_the_formulas() {
    let ac = AccentColors::from_color(Color::from_rgb(100, 200, 240));
    assert_eq!(ac.normal, Color::from_rgb(100, 200, 240));
    assert_eq!(ac.hover, Color::from_rgb(110, 220, 255));
    assert_eq!(ac.pressed, Color::from_rgb(85, 170, 204));
    assert_eq!(ac.on_accent, NeutralPalette::n90());
    assert_eq!(ac.disabled, NeutralPalette::accent_disabled());
}

#[test]
fn accent_on_dark_accent_is_white() {
    let ac = AccentColors::from_color(Color::from_rgb(0, 0, 0));
    assert_eq!(ac.on_accent, Color::white());
    assert_eq!(AccentColors::default().hover, NeutralPalette::accent_hover());
}

#[test]
fn accent_foreground_matches_float_luminance() {
    // The foreground rule compares the weighted luminance with 128 in `f32`.
    for r in 0u16..256 {
        for g in 0u16..256 {
            for b in (0u16..256).step_by(7) {
                let (r, g, b) = (r as u8, g as u8, b as u8);
                let lum = 0.299f32 * r as f32 + 0.587f32 * g as f32 + 0.114f32 * b as f32;
                let expected = if lum < 128.0 { Color::white() } else { NeutralPalette::n90() };
                let ac = AccentColors::from_color(Color::from_rgb(r, g, b));
                assert_eq!(ac.on_accent, expected, "rgb({r},{g},{b})");
            }
        }
    }
}

#[test]
fn gnome_accent_names() {
    assert_eq!(gnome_accent_from_output("'teal'\n"), Some(Color::from_rgb(0, 160, 164)));
    assert_eq!(gnome_accent_from_output("  'slate' "), Some(Color::from_rgb(105, 119, 138)));
    assert_eq!(gnome_accent_from_output("'mauve'"), None);
}

#[test]
fn system_defaults_and_base_colors() {
    let sys = SystemColors::default();
    assert_eq!(sys.scheme, ColorScheme::Light);
    assert_eq!(ColorScheme::default(), ColorScheme::Light);
    let light = BaseColors::light(sys.accent.clone());
    let dark = BaseColors::dark(sys.accent.clone());
    assert_ne!(light, dark);
}

#[test]
fn scheme_probes_in_order() {
    assert_eq!(first_scheme_probe(), SchemeProbe::QuickDarkMode);
    assert_eq!(next_scheme_step(SchemeProbe::QuickDarkMode, Some("1")), SchemeStep::Decided(ColorScheme::Dark));
    assert_eq!(next_scheme_step(SchemeProbe::QuickDarkMode, Some("true")), SchemeStep::Ask(SchemeProbe::QuickLightMode));
    assert_eq!(next_scheme_step(SchemeProbe::QuickLightMode, Some("1")), SchemeStep::Decided(ColorScheme::Light));
    assert_eq!(next_scheme_step(SchemeProbe::XdgColorScheme, Some("prefer-dark")), SchemeStep::Decided(ColorScheme::Dark));
    assert_eq!(next_scheme_step(SchemeProbe::XdgColorScheme, Some("Dark")), SchemeStep::Ask(SchemeProbe::GtkTheme));
    assert_eq!(next_scheme_step(SchemeProbe::GtkTheme, Some("Adwaita:Dark")), SchemeStep::Decided(ColorScheme::Dark));
    assert_eq!(next_scheme_step(SchemeProbe::GtkTheme, None), SchemeStep::Ask(SchemeProbe::GsettingsColorScheme));
    assert_eq!(next_scheme_step(SchemeProbe::GsettingsColorScheme, Some("'default'\n")), SchemeStep::Ask(SchemeProbe::GsettingsGtkTheme));
    assert_eq!(next_scheme_step(SchemeProbe::GsettingsGtkTheme, Some("'Yaru-DARK'")), SchemeStep::Decided(ColorScheme::Dark));
    assert_eq!(next_scheme_step(SchemeProbe::GsettingsGtkTheme, Some("'Yaru'")), SchemeStep::Decided(ColorScheme::Light));
    assert!(text_contains("abc", ""));
    assert!(text_contains("prefer-dark", "dark"));
    assert!(!text_contains("da", "dark"));
}

#[test]
fn kde_accent_lines() {
    assert_eq!(
        kde_accent_in("[General]\nAccentColor=#3daee9\n"),
        Some(KdeAccent::Found(Color::from_rgb(0x3d, 0xae, 0xe9)))
    );
    assert_eq!(
        kde_accent_in("AccentColor=AccentColor= 61, 174 ,233\r\nAccentColor=#000000"),
        Some(KdeAccent::Found(Color::from_rgb(61, 174, 233)))
    );
    assert_eq!(kde_accent_in("AccentColor=1,2,300\nAccentColor=#fff"), Some(KdeAccent::Invalid));
    assert_eq!(
        kde_accent_in("AccentColor=1,2\nAccentColor=blue"),
        Some(KdeAccent::Found(Color::from_rgb(0, 0, 255)))
    );
    assert_eq!(kde_accent_in("Other=1\n accentColor=#fff"), Some(KdeAccent::Absent));
    assert_eq!(kde_accent_in(""), Some(KdeAccent::Absent));
    assert_eq!(kde_accent_in("AccentColor=#ééé"), Some(KdeAccent::Absent));
    assert_eq!(kde_accent_in("AccentColor=#é12"), None);
}

fn decided(step: AccentStep) -> Color {
    match step {
        AccentStep::Decided(c) => c,
        other => panic!("expected a decision, got {other:?}"),
    }
}

#[test]
fn accent_sources_are_asked_in_order() {
    let probe = first_accent_probe();
    assert!(matches!(probe, AccentProbe::Override));
    assert_eq!(decided(next_accent_step(&probe, Some(" #FF0000 "))), Color::from_rgb(255, 0, 0));
    assert!(matches!(next_accent_step(&probe, Some("nonsense")), AccentStep::Ask(AccentProbe::Home)));
    assert!(matches!(next_accent_step(&probe, None), AccentStep::Ask(AccentProbe::Home)));
    assert!(matches!(next_accent_step(&probe, Some("#é12")), AccentStep::SlicesCharacter));
    match next_accent_step(&AccentProbe::Home, Some("/home/ada")) {
        AccentStep::Ask(AccentProbe::UserKdeGlobals(path)) => assert_eq!(path, "/home/ada/.config/kdeglobals"),
        other => panic!("unexpected {other:?}"),
    }
    assert!(matches!(next_accent_step(&AccentProbe::Home, None), AccentStep::Ask(AccentProbe::GnomeAccent)));
    let user = AccentProbe::UserKdeGlobals("/home/ada/.config/kdeglobals".to_string());
    assert!(matches!(next_accent_step(&user, None), AccentStep::Ask(AccentProbe::SystemKdeGlobals)));
    assert!(matches!(next_accent_step(&user, Some("[General]\n")), AccentStep::Ask(AccentProbe::SystemKdeGlobals)));
    assert_eq!(decided(next_accent_step(&user, Some("AccentColor=10,20,30\n"))), Color::from_rgb(10, 20, 30));
    assert!(matches!(
        next_accent_step(&user, Some("AccentColor=1,2,300\n")),
        AccentStep::Ask(AccentProbe::GnomeAccent)
    ));
    assert!(matches!(
        next_accent_step(&AccentProbe::SystemKdeGlobals, None),
        AccentStep::Ask(AccentProbe::GnomeAccent)
    ));
    assert_eq!(decided(next_accent_step(&AccentProbe::GnomeAccent, Some("'teal'\n"))), Color::from_rgb(0, 160, 164));
    assert_eq!(decided(next_accent_step(&AccentProbe::GnomeAccent, None)), NeutralPalette::accent_default());
}
