use quick::color::Color;
use quick::color_scheme::ColorScheme;

fn numbered_scheme() -> ColorScheme {
    ColorScheme {
        primary: Color::from_rgb(0, 0, 0),
        on_primary: Color::from_rgb(1, 0, 0),
        primary_container: Color::from_rgb(2, 0, 0),
        on_primary_container: Color::from_rgb(3, 0, 0),
        inverse_primary: Color::from_rgb(4, 0, 0),
        primary_fixed: Color::from_rgb(5, 0, 0),
        primary_fixed_dim: Color::from_rgb(6, 0, 0),
        on_primary_fixed: Color::from_rgb(7, 0, 0),
        on_primary_fixed_variant: Color::from_rgb(8, 0, 0),
        secondary: Color::from_rgb(9, 0, 0),
        on_secondary: Color::from_rgb(10, 0, 0),
        secondary_container: Color::from_rgb(11, 0, 0),
        on_secondary_container: Color::from_rgb(12, 0, 0),
        secondary_fixed: Color::from_rgb(13, 0, 0),
        secondary_fixed_dim: Color::from_rgb(14, 0, 0),
        on_secondary_fixed: Color::from_rgb(15, 0, 0),
        on_secondary_fixed_variant: Color::from_rgb(16, 0, 0),
        tertiary: Color::from_rgb(17, 0, 0),
        on_tertiary: Color::from_rgb(18, 0, 0),
        tertiary_container: Color::from_rgb(19, 0, 0),
        on_tertiary_container: Color::from_rgb(20, 0, 0),
        tertiary_fixed: Color::from_rgb(21, 0, 0),
        tertiary_fixed_dim: Color::from_rgb(22, 0, 0),
        on_tertiary_fixed: Color::from_rgb(23, 0, 0),
        on_tertiary_fixed_variant: Color::from_rgb(24, 0, 0),
        error: Color::from_rgb(25, 0, 0),
        on_error: Color::from_rgb(26, 0, 0),
        error_container: Color::from_rgb(27, 0, 0),
        on_error_container: Color::from_rgb(28, 0, 0),
        surface: Color::from_rgb(29, 0, 0),
        on_surface: Color::from_rgb(30, 0, 0),
        surface_dim: Color::from_rgb(31, 0, 0),
        surface_bright: Color::from_rgb(32, 0, 0),
        surface_container_lowest: Color::from_rgb(33, 0, 0),
        surface_container_low: Color::from_rgb(34, 0, 0),
        surface_container: Color::from_rgb(35, 0, 0),
        surface_container_high: Color::from_rgb(36, 0, 0),
        surface_container_highest: Color::from_rgb(37, 0, 0),
        surface_variant: Color::from_rgb(38, 0, 0),
        on_surface_variant: Color::from_rgb(39, 0, 0),
        background: Color::from_rgb(40, 0, 0),
        on_background: Color::from_rgb(41, 0, 0),
        outline: Color::from_rgb(42, 0, 0),
        outline_variant: Color::from_rgb(43, 0, 0),
        surface_tint: Color::from_rgb(44, 0, 0),
        inverse_surface: Color::from_rgb(45, 0, 0),
        inverse_on_surface: Color::from_rgb(46, 0, 0),
        shadow: Color::from_rgb(47, 0, 0),
        scrim: Color::from_rgb(48, 0, 0),
    }
}

#[test]
fn roles_are_listed_in_order() {
    let cs = numbered_scheme();
    let roles = cs.iter();
    assert_eq!(roles.len(), 49);
    assert_eq!(roles[0], ("primary", Color::from_rgb(0, 0, 0)));
    assert_eq!(roles[48], ("scrim", Color::from_rgb(48, 0, 0)));
    for (i, (_, c)) in roles.iter().enumerate() {
        assert_eq!(c.r as usize, i);
    }
}

#[test]
fn roles_are_found_by_name() {
    let cs = numbered_scheme();
    assert_eq!(cs.get_by_name("surface_container_high"), Some(Color::from_rgb(36, 0, 0)));
    assert_eq!(cs.get_by_name("  Surface-Container-High "), Some(Color::from_rgb(36, 0, 0)));
    assert_eq!(cs.get_by_name("on-error"), Some(Color::from_rgb(26, 0, 0)));
    assert_eq!(cs.get_by_name("primary_"), None);
    assert_eq!(cs.get_by_name(""), None);
}

#[test]
fn role_map_has_both_spellings() {
    let cs = numbered_scheme();
    let m = cs.to_map();
    assert_eq!(m.len(), 49 + 40);
    assert_eq!(m.get("inverse_on_surface"), Some(&Color::from_rgb(46, 0, 0)));
    assert_eq!(m.get("inverse-on-surface"), Some(&Color::from_rgb(46, 0, 0)));
    assert_eq!(m.get("scrim"), Some(&Color::from_rgb(48, 0, 0)));
}

#[test]
fn every_role_is_found_by_both_spellings() {
    let cs = numbered_scheme();
    let m = cs.to_map();
    let roles = cs.iter();
    assert_eq!(roles.len(), 49);
    for (name, color) in roles {
        let kebab = name.replace('_', "-");
        assert_eq!(cs.get_by_name(name), Some(color));
        assert_eq!(cs.get_by_name(&kebab), Some(color));
        assert_eq!(m.get(name), Some(&color));
        assert_eq!(m.get(kebab.as_str()), Some(&color));
    }
}
