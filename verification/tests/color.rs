use quick::color::Color;

#[test]
fn test_color_hex_parsing() {
    let red = Color::from_hex("#ff0000").unwrap();
    assert_eq!(red, Color::from_rgb(255, 0, 0));

    let blue_short = Color::from_hex("#00f").unwrap();
    assert_eq!(blue_short, Color::from_rgb(0, 0, 255));

    let rgba_short = Color::from_hex("#f008").unwrap();
    assert_eq!(rgba_short, Color::from_rgba(255, 0, 0, 136));

    let semi_green = Color::from_hex("#00ff0080").unwrap();
    assert_eq!(semi_green, Color::from_rgba(0, 255, 0, 128));

    let white = Color::from_hex("white").unwrap();
    assert_eq!(white, Color::white());

    let transparent = Color::from_hex("transparent").unwrap();
    assert_eq!(transparent, Color::transparent());

    assert!(Color::from_hex("invalid_color_123").is_err());
}

#[test]
fn hex_names_are_trimmed_and_case_folded() {
    assert_eq!(Color::from_hex("  GREY ").unwrap(), Color::from_rgb(128, 128, 128));
    assert_eq!(Color::from_hex("Magenta").unwrap(), Color::from_rgb(255, 0, 255));
    assert_eq!(Color::from_hex("##ABCDEF").unwrap(), Color::from_rgb(0xab, 0xcd, 0xef));
    assert_eq!(Color::from_hex("#+f+f+f").unwrap(), Color::from_rgb(15, 15, 15));
}

#[test]
fn hex_errors_carry_their_messages() {
    assert_eq!(Color::from_hex("#12345").unwrap_err(), "Invalid hex color: #12345");
    assert_eq!(Color::from_hex("#gg0000").unwrap_err(), "invalid digit found in string");
    assert_eq!(Color::from_hex("").unwrap_err(), "Invalid hex color: #");
}

#[test]
fn checked_hex_refuses_text_that_cannot_be_sliced() {
    assert_eq!(Color::checked_from_hex("#ff0000"), Some(Ok(Color::from_rgb(255, 0, 0))));
    assert_eq!(Color::checked_from_hex("#éé"), None);
}

#[test]
fn hex_round_trip() {
    let c = Color::from_rgba(0x12, 0xab, 0x00, 0x7f);
    assert_eq!(c.to_hex(), "#12AB007F");
    assert_eq!(Color::from_hex(&c.to_hex()).unwrap(), c);
    let opaque = Color::from_rgb(1, 2, 3);
    assert_eq!(opaque.to_hex(), "#010203");
    assert_eq!(Color::from_hex(&opaque.to_hex()).unwrap(), opaque);
}

#[test]
fn argb_packing() {
    assert_eq!(Color::from_rgba(0x11, 0x22, 0x33, 0x44).to_argb_u32(), 0x44112233);
    assert_eq!(Color::white().to_argb_u32(), 0xffffffff);
    assert_eq!(Color::transparent().to_argb_u32(), 0);
}

#[test]
fn named_colors_and_default() {
    assert_eq!(Color::black(), Color::from_rgb(0, 0, 0));
    assert_eq!(Color::red(), Color::from_rgb(255, 0, 0));
    assert_eq!(Color::green(), Color::from_rgb(0, 255, 0));
    assert_eq!(Color::blue(), Color::from_rgb(0, 0, 255));
    assert_eq!(Color::default(), Color::black());
}

#[test]
fn every_hex_text_reads_back() {
    for r in (0u16..256).step_by(15) {
        for a in [0u8, 17, 128, 254, 255] {
            let c = Color::from_rgba(r as u8, 255 - r as u8, (r as u8).wrapping_mul(7), a);
            assert_eq!(Color::from_hex(&c.to_hex()), Ok(c));
        }
    }
}
