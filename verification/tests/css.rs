use quick::css::{
    align_items_named, flex_direction_named, font_family_value, font_weight_value,
    justify_content_named, parse_declarations, property_named, px_number_text, split_style_blocks,
    text_align_named, CssProperty,
};
use quick::property::{AlignItems, FlexDirection, JustifyContent, TextAlignment};

fn pair(a: &str, b: &str) -> (String, String) {
    (a.to_string(), b.to_string())
}

#[test]
fn declarations_split_and_trim() {
    assert_eq!(
        parse_declarations(" padding : 8px 16px ; ;color:#fff; bogus ; a:b:c"),
        vec![pair("padding", "8px 16px"), pair("color", "#fff"), pair("a", "b:c")]
    );
    assert!(parse_declarations("").is_empty());
    assert_eq!(parse_declarations("gap: 4px;"), vec![pair("gap", "4px")]);
}

#[test]
fn style_blocks_split_and_skip_empty_selectors() {
    let css = "\n Button.primary {\n background: #3b82f6;\n }\n { x: y } Text:hover{color:red}";
    assert_eq!(
        split_style_blocks(css),
        vec![pair("Button.primary", "background: #3b82f6;"), pair("Text:hover", "color:red")]
    );
    assert!(split_style_blocks("A { unterminated").is_empty());
    assert_eq!(split_style_blocks("A {} B"), vec![pair("A", "")]);
}

#[test]
fn property_names() {
    assert_eq!(property_named("background"), CssProperty::BackgroundColor);
    assert_eq!(property_named("background-color"), CssProperty::BackgroundColor);
    assert_eq!(property_named("text-color"), CssProperty::TextColor);
    assert_eq!(property_named("Width"), CssProperty::Unknown);
    assert_eq!(property_named("font-weight"), CssProperty::FontWeight);
}

#[test]
fn keyword_values() {
    assert_eq!(flex_direction_named("row-reverse"), Some(FlexDirection::RowReverse));
    assert_eq!(flex_direction_named("Row"), None);
    assert_eq!(justify_content_named("start"), Some(JustifyContent::FlexStart));
    assert_eq!(justify_content_named("space-evenly"), Some(JustifyContent::SpaceEvenly));
    assert_eq!(align_items_named("end"), Some(AlignItems::FlexEnd));
    assert_eq!(align_items_named("baseline"), Some(AlignItems::Baseline));
    assert_eq!(text_align_named("justify"), Some(TextAlignment::Justify));
    assert_eq!(text_align_named("middle"), None);
}

#[test]
fn font_values() {
    assert_eq!(font_weight_value("600"), Some(600));
    assert_eq!(font_weight_value("+300"), Some(300));
    assert_eq!(font_weight_value("bold"), Some(700));
    assert_eq!(font_weight_value("normal"), Some(400));
    assert_eq!(font_weight_value("70000"), None);
    assert_eq!(font_weight_value("heavy"), None);
    assert_eq!(font_family_value("'Inter'"), "Inter");
    assert_eq!(font_family_value("\"'Fira Code'\""), "'Fira Code'");
    assert_eq!(font_family_value("''"), "");
}

#[test]
fn pixel_numbers() {
    assert_eq!(px_number_text("16px"), "16");
    assert_eq!(px_number_text(" 2.5 pxpx"), "2.5");
    assert_eq!(px_number_text("auto"), "auto");
}
