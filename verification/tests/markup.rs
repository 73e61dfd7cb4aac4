use quick::markup::{action_key, binding_key, class_names, is_xml_markup, widget_kind, WidgetKind};
use quick::markup::{build_document, default_element, parse_quick_xml, parse_xml, AttributeMap, UiDocument, UiNode, XmlEvent};

#[test]
fn test_parse_xml_ui() {
    let xml = r#"
        <VStack id="main" class="container" style="padding: 16px; gap: 8px;">
            <Style>
                Button { background: #3b82f6; }
            </Style>
            <Text id="label" text="Counter App" style="font-size: 20px; color: #ffffff;" />
            <Button id="btn-inc" text="Increment" onclick="increment" />
        </VStack>
        "#;

    let doc = parse_xml(xml).expect("Should parse valid XML");
    assert!(doc.styles.is_some());
    assert_eq!(doc.root.element, "VStack");
    assert_eq!(doc.root.id, Some("main".to_string()));
    assert_eq!(doc.root.children.len(), 2);
    assert_eq!(doc.root.children[0].element, "Text");
    assert_eq!(doc.root.children[1].element, "Button");
    assert_eq!(doc.root.children[1].on_click, Some("increment".to_string()));
}

#[test]
fn test_parse_xml_multiple_styles() {
    let xml = r#"
        <VStack>
            <Style>
                Text { color: #fff; }
            </Style>
            <Style>
                Button { background: #3b82f6; }
            </Style>
            <Text text="Hello" />
        </VStack>
        "#;
    let doc = parse_xml(xml).unwrap();
    let styles = doc.styles.unwrap();
    assert!(styles.contains("Text"));
    assert!(styles.contains("Button"));
}

#[test]
fn test_parse_xml_cdata_and_escaped_attributes() {
    let xml = r#"
        <VStack>
            <Text text="&quot;Quotes&quot; &amp; &lt;Arrows&gt;" />
            <Text><![CDATA[Raw <Embedded> & Unescaped Content]]></Text>
        </VStack>
        "#;
    let doc = parse_xml(xml).unwrap();
    assert_eq!(doc.root.children.len(), 2);
    assert_eq!(doc.root.children[0].text, Some("\"Quotes\" & <Arrows>".to_string()));
    assert_eq!(doc.root.children[1].text, Some("Raw <Embedded> & Unescaped Content".to_string()));
}

#[test]
fn xml_extra_attributes_and_case_insensitive_names() {
    let doc = parse_xml(r#"<Button ID="x" OnChange="changed" data-kind="a" data-kind="b" on_click="go()" />"#);
    // quick-xml refuses a repeated attribute name
    assert!(doc.is_err());
    let doc = parse_xml(r#"<Button ID="x" OnChange="changed" data-kind="a" on_click="go()" />"#).unwrap();
    assert_eq!(doc.root.id, Some("x".to_string()));
    assert_eq!(doc.root.on_change, Some("changed".to_string()));
    assert_eq!(doc.root.on_click, Some("go()".to_string()));
    assert_eq!(doc.root.attributes.get("data-kind"), Some(&"a".to_string()));
    assert_eq!(doc.root.attributes.len(), 1);
}

#[test]
fn xml_styles_are_joined_with_a_newline() {
    let doc = parse_xml("<A><styles>x</styles><STYLE>y</STYLE></A>").unwrap();
    assert_eq!(doc.styles, Some("x\ny".to_string()));
    assert_eq!(doc.root.element, "A");
    assert!(doc.root.children.is_empty());
}

#[test]
fn xml_text_is_appended_and_trimmed() {
    let doc = parse_xml("<T>  hello <!-- c --> world  </T>").unwrap();
    assert_eq!(doc.root.text, Some("helloworld".to_string()));
}

#[test]
fn xml_errors_are_reported() {
    let err = parse_xml("<A></B>").unwrap_err();
    assert!(err.starts_with("XML parse error at position"), "{err}");
    let err = parse_xml("<A>&bogus;</A>").unwrap_err();
    assert!(!err.is_empty());
}

#[test]
fn empty_document_gives_default_root() {
    let doc = parse_xml("").unwrap();
    assert_eq!(doc.root.element, "");
    assert!(doc.styles.is_none());
    let d = UiDocument::default();
    assert!(d.root.children.is_empty());
    assert_eq!(default_element(), "Container");
}

#[test]
fn build_document_applies_events_in_order() {
    let events = vec![
        XmlEvent::Start {
            name: "VStack".to_string(),
            attributes: Ok(vec![("class".to_string(), "c".to_string())]),
        },
        XmlEvent::Start { name: "Style".to_string(), attributes: Ok(vec![]) },
        XmlEvent::StyleText(Ok("A {}".to_string())),
        XmlEvent::Empty {
            name: "Text".to_string(),
            attributes: Ok(vec![("text".to_string(), "hi".to_string())]),
        },
        XmlEvent::Text(Ok("body".to_string())),
        XmlEvent::CData(" more".to_string()),
        XmlEvent::End,
        XmlEvent::Eof,
        XmlEvent::Error("never read".to_string()),
    ];
    let doc = build_document(&events).unwrap();
    assert_eq!(doc.styles, Some("A {}".to_string()));
    assert_eq!(doc.root.element, "VStack");
    assert_eq!(doc.root.class, Some("c".to_string()));
    assert_eq!(doc.root.text, Some("body more".to_string()));
    assert_eq!(doc.root.children.len(), 1);
    assert_eq!(doc.root.children[0].text, Some("hi".to_string()));
}

#[test]
fn build_document_stops_at_the_first_failure() {
    let events = vec![
        XmlEvent::Start { name: "A".to_string(), attributes: Err("bad attribute".to_string()) },
        XmlEvent::Error("later".to_string()),
    ];
    assert_eq!(build_document(&events).unwrap_err(), "bad attribute");
    let events = vec![XmlEvent::Text(Err("bad entity".to_string()))];
    assert_eq!(build_document(&events).unwrap_err(), "bad entity");
}

#[test]
fn attribute_map_keeps_last_value() {
    let mut m = AttributeMap::new();
    m.insert("a".to_string(), "1".to_string());
    m.insert("b".to_string(), "2".to_string());
    m.insert("a".to_string(), "3".to_string());
    assert_eq!(m.len(), 2);
    assert_eq!(m.get("a"), Some(&"3".to_string()));
    assert_eq!(m.get("c"), None);
    let node = UiNode::default();
    assert_eq!(node.attributes.len(), 0);
}

#[test]
fn builder_reads_nodes() {
    assert_eq!(widget_kind("Button"), WidgetKind::Button);
    assert_eq!(widget_kind("TextInput"), WidgetKind::TextInput);
    assert_eq!(widget_kind("Card"), WidgetKind::Container);
    assert_eq!(widget_kind("text"), WidgetKind::Container);
    assert_eq!(binding_key("$greeting"), Some("greeting".to_string()));
    assert_eq!(binding_key("greeting"), None);
    assert_eq!(binding_key("$"), Some(String::new()));
    assert_eq!(action_key(" increment() "), "increment()");
    assert_eq!(action_key(" increment()"), "increment");
    assert_eq!(action_key("go()()"), "go");
    assert_eq!(action_key("reset"), "reset");
    assert_eq!(class_names("  btn  primary\tlarge \n"), vec!["btn", "primary", "large"]);
    assert!(class_names(" \t ").is_empty());
    assert!(is_xml_markup("\n   <VStack/>"));
    assert!(!is_xml_markup("styles = \"\"\n[root]"));
    assert!(!is_xml_markup(""));
}

#[test]
fn cloned_documents_are_equal_copies() {
    let doc = parse_xml(r#"<A id="a" x="1"><B text="t"/></A>"#).unwrap();
    let copy = doc.clone();
    assert_eq!(copy.root.id, Some("a".to_string()));
    assert_eq!(copy.root.attributes.get("x"), Some(&"1".to_string()));
    assert_eq!(copy.root.children[0].text, Some("t".to_string()));
}

#[test]
fn quick_markup_starting_with_a_tag_is_read_as_xml() {
    let xml = "  \n<VStack id=\"root\"><Text text=\"hi\"/></VStack>";
    let doc = parse_quick_xml(xml).unwrap().unwrap();
    assert_eq!(doc.root.element, "VStack");
    assert_eq!(doc.root.id.as_deref(), Some("root"));
    assert_eq!(doc.root.children.len(), 1);
    assert!(parse_quick_xml("[root]\nelement = \"VStack\"\n").is_none());
    assert!(parse_quick_xml("").is_none());
}
