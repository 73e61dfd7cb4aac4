use quick::scheme::SchemeVariant;
use quick::tokens::MotionTokens;
use std::str::FromStr;

#[test]
fn test_adversarial_scheme_variants_parsing_and_contract() {
    let variants = [
        (SchemeVariant::TonalSpot, "tonal_spot"),
        (SchemeVariant::Vibrant, "vibrant"),
        (SchemeVariant::Expressive, "expressive"),
        (SchemeVariant::Fidelity, "fidelity"),
        (SchemeVariant::Content, "content"),
        (SchemeVariant::Monochrome, "monochrome"),
        (SchemeVariant::Neutral, "neutral"),
    ];

    for (v, s) in variants {
        assert_eq!(v.to_string(), s);
        assert_eq!(SchemeVariant::from_str(s).unwrap(), v);
        assert_eq!(SchemeVariant::from_str(&s.replace('_', "-")).unwrap(), v);
        assert_eq!(SchemeVariant::from_str(&s.to_uppercase()).unwrap(), v);
    }

    assert!(SchemeVariant::from_str("invalid_variant_name").is_err());

    assert_eq!(SchemeVariant::default(), SchemeVariant::TonalSpot);
}

#[test]
fn scheme_variant_error_message() {
    assert_eq!(
        SchemeVariant::parse("bogus").unwrap_err(),
        "Unknown scheme variant: 'bogus'"
    );
    assert_eq!(SchemeVariant::parse("Tonal-Spot").unwrap(), SchemeVariant::TonalSpot);
}

#[test]
fn test_adversarial_motion_tokens() {
    let motion = MotionTokens::default();
    assert_eq!(motion.duration_short_1, 50);
    assert_eq!(motion.duration_short_2, 100);
    assert_eq!(motion.duration_short_3, 150);
    assert_eq!(motion.duration_short_4, 200);
    assert_eq!(motion.duration_medium_1, 250);
    assert_eq!(motion.duration_medium_2, 300);
    assert_eq!(motion.duration_medium_3, 350);
    assert_eq!(motion.duration_medium_4, 400);
    assert_eq!(motion.duration_long_1, 450);
    assert_eq!(motion.duration_long_2, 500);
}
