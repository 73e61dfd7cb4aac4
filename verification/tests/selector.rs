use quick::selector::{cascade_order, parse_selector, PseudoState, Selector};

#[test]
fn selector_parts_are_parsed() {
    let s = parse_selector(" Button.primary#save : hover ");
    assert_eq!(s.element, Some("Button".to_string()));
    assert_eq!(s.class, Some("primary".to_string()));
    assert_eq!(s.id, Some("save".to_string()));
    assert_eq!(s.pseudo_state, Some(PseudoState::Hover));
    let p = parse_selector("Text:pressed");
    assert_eq!(p.pseudo_state, Some(PseudoState::Active));
    let u = parse_selector("Text:wiggle");
    assert_eq!(u.pseudo_state, None);
    assert_eq!(u.element, Some("Text".to_string()));
    assert_eq!(parse_selector(".card").element, None);
}

#[test]
fn selector_matching_and_specificity() {
    let s = parse_selector("Button.primary:hover");
    assert!(s.matches("Button", &["x", "primary"], None, Some(PseudoState::Hover)));
    assert!(!s.matches("Button", &["primary"], None, None));
    assert!(!s.matches("Text", &["primary"], None, Some(PseudoState::Hover)));
    assert_eq!(s.specificity(), 21);
    let any = parse_selector("*");
    assert!(any.matches("Anything", &[], Some("id"), None));
    assert_eq!(any.specificity(), 1);
    let by_id = parse_selector("#main");
    assert!(by_id.matches("VStack", &[], Some("main"), None));
    assert!(!by_id.matches("VStack", &[], None, None));
    assert_eq!(by_id.specificity(), 100);
    assert_eq!(Selector::default().specificity(), 0);
}

#[test]
fn cascade_orders_by_specificity_then_sheet_order() {
    let sels = vec![
        parse_selector("Button:hover"),
        parse_selector("Button"),
        parse_selector("#save"),
        parse_selector("Text"),
        parse_selector(".primary"),
        parse_selector("*"),
    ];
    assert_eq!(
        cascade_order(&sels, "Button", &["primary"], Some("save"), Some(PseudoState::Hover)),
        vec![1, 5, 4, 0, 2]
    );
    assert_eq!(cascade_order(&sels, "Text", &[], None, None), vec![3, 5]);
    assert!(cascade_order(&Vec::new(), "Text", &[], None, None).is_empty());
}
