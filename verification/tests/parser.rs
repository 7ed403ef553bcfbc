use radula::style_parser::parser::parse_cell;
use radula::style_parser::text_fragment::FontStyle;
use radula::Attribute;
use radula::DomNode;
use radula::Element;
use radula::ErrorKind;
use radula::ParseError;

fn elem(name: &str, attrs: &[(&str, &str)], children: Vec<DomNode>) -> DomNode {
    DomNode::Elem(Element {
        name: name.to_string(),
        attrs: attrs
            .iter()
            .map(|(k, v)| Attribute { name: k.to_string(), value: v.to_string() })
            .collect(),
        children,
    })
}

fn text(t: &str) -> DomNode {
    DomNode::Text(t.to_string())
}

fn flat(cell: &radula::style_parser::TableCell) -> Vec<(FontStyle, String)> {
    cell.iter()
        .flat_map(|line| line.iter().map(|f| (*f.font_style(), f.text().to_string())))
        .collect()
}

#[test]
fn scenario_red_font_then_plain() {
    let nodes = vec![
        elem("font", &[("color", "red")], vec![elem("i", &[], vec![text("Amen.")])]),
        elem("br", &[], vec![]),
        text("plain text"),
    ];
    let cell = parse_cell(&nodes).expect("cell parses");
    assert_eq!(cell.len(), 2);
    assert_eq!(cell[0].len(), 1);
    assert_eq!(*cell[0][0].font_style(), FontStyle::RedFont);
    assert_eq!(cell[0][0].text(), "Amen.");
    assert_eq!(cell[1].len(), 1);
    assert_eq!(*cell[1][0].font_style(), FontStyle::DefaultFont);
    assert_eq!(cell[1][0].text(), "plain text");
}

#[test]
fn scenario_right_div_is_skipped() {
    let nodes = vec![
        elem("div", &[("align", "right")], vec![text("Top")]),
        elem("font", &[("size", "-1")], vec![text("note")]),
    ];
    let cell = parse_cell(&nodes).expect("cell parses");
    assert_eq!(cell.len(), 1);
    assert_eq!(cell[0].len(), 1);
    assert_eq!(*cell[0][0].font_style(), FontStyle::SmallText);
    assert_eq!(cell[0][0].text(), "note");
}

#[test]
fn scenario_blue_span_is_rejected() {
    let nodes = vec![elem("span", &[("style", "color:blue")], vec![text("x")])];
    let err = parse_cell(&nodes).expect_err("blue span must fail");
    assert_eq!(err.kind(), ErrorKind::UnrecognizedMarkup);
    assert!(matches!(&err, ParseError::SpanStyle { style: Some(s) } if s == "color:blue"));
}

#[test]
fn plain_runs_round_trip() {
    let nodes = vec![text("ab "), elem("br", &[], vec![]), text("cd"), elem("br", &[], vec![])];
    let cell = parse_cell(&nodes).expect("cell parses");
    assert_eq!(cell.len(), 3);
    assert_eq!(
        flat(&cell),
        vec![
            (FontStyle::DefaultFont, "ab ".to_string()),
            (FontStyle::DefaultFont, "cd".to_string()),
        ]
    );
    assert!(cell[2].is_empty());
}

#[test]
fn cell_without_br_is_one_line() {
    let nodes = vec![text("only")];
    let cell = parse_cell(&nodes).expect("cell parses");
    assert_eq!(cell.len(), 1);
    assert_eq!(cell[0][0].text(), "only");

    let empty_cell = parse_cell(&vec![]).expect("empty cell parses");
    assert_eq!(empty_cell.len(), 1);
    assert!(empty_cell[0].is_empty());
}

#[test]
fn font_table_positive_cases() {
    let small_red = elem(
        "font",
        &[("color", "red"), ("size", "1")],
        vec![
            text("V. "),
            elem("span", &[("class", "nigra")], vec![text("Deus")]),
            text(" meus"),
        ],
    );
    let large = elem(
        "font",
        &[("color", "red"), ("size", "+1")],
        vec![elem("b", &[], vec![elem("i", &[], vec![text("Lumen")])])],
    );
    let initial = elem(
        "font",
        &[("color", "red"), ("size", "+2")],
        vec![elem("b", &[], vec![elem("i", &[], vec![text("D")])])],
    );
    let cross = elem(
        "span",
        &[("style", "color:red; font-size:1.25em")],
        vec![text("+")],
    );
    let nodes = vec![small_red, large, initial, cross];
    let cell = parse_cell(&nodes).expect("cell parses");
    assert_eq!(
        flat(&cell),
        vec![
            (FontStyle::SmallRed, "V. Deus meus".to_string()),
            (FontStyle::LargeFont, "Lumen".to_string()),
            (FontStyle::Initial, "D".to_string()),
            (FontStyle::RedCross, "+".to_string()),
        ]
    );
}

#[test]
fn unlisted_font_attributes_are_rejected() {
    let cases: Vec<(&[(&str, &str)], Option<&str>, Option<&str>)> = vec![
        (&[("color", "red"), ("size", "2")], Some("red"), Some("2")),
        (&[("color", "red"), ("size", "-1")], Some("red"), Some("-1")),
        (&[("color", "blue")], Some("blue"), None),
        (&[("color", "blue"), ("size", "-1")], Some("blue"), Some("-1")),
        (&[], None, None),
        (&[("size", "+1")], None, Some("+1")),
        (&[("size", "1")], None, Some("1")),
    ];
    for (attrs, want_color, want_size) in cases {
        let nodes = vec![elem("font", attrs, vec![text("x")])];
        let err = parse_cell(&nodes).expect_err("unlisted combination must fail");
        assert_eq!(err.kind(), ErrorKind::UnrecognizedMarkup);
        match &err {
            ParseError::FontAttributes { color, size } => {
                assert_eq!(color.as_deref(), want_color);
                assert_eq!(size.as_deref(), want_size);
            }
            other => panic!("expected a font-attribute error, got {}", other.describe()),
        }
    }
}

#[test]
fn malformed_structures_are_rejected() {
    let two_children = vec![elem(
        "font",
        &[("color", "red")],
        vec![elem("i", &[], vec![text("a")]), elem("i", &[], vec![text("b")])],
    )];
    let err = parse_cell(&two_children).expect_err("two i children must fail");
    assert!(matches!(&err, ParseError::ExpectedElement { name } if name == "i"));
    assert_eq!(err.kind(), ErrorKind::StructuralMismatch);

    let not_bold = vec![elem(
        "font",
        &[("color", "red"), ("size", "+1")],
        vec![elem("i", &[], vec![text("a")])],
    )];
    let err = parse_cell(&not_bold).expect_err("missing b wrapper must fail");
    assert!(matches!(&err, ParseError::ExpectedElement { name } if name == "b"));

    let two_texts = vec![elem(
        "font",
        &[("color", "red")],
        vec![elem("i", &[], vec![text("a"), text("b")])],
    )];
    let err = parse_cell(&two_texts).expect_err("two text children must fail");
    assert!(matches!(err, ParseError::ExpectedSingleChild));

    let not_text = vec![elem(
        "font",
        &[("size", "-1")],
        vec![elem("i", &[], vec![text("a")])],
    )];
    let err = parse_cell(&not_text).expect_err("element instead of text must fail");
    assert!(matches!(err, ParseError::ExpectedTextNode));

    let bad_small_red = vec![elem(
        "font",
        &[("color", "red"), ("size", "1")],
        vec![elem("b", &[], vec![text("a")])],
    )];
    let err = parse_cell(&bad_small_red).expect_err("non-nigra element must fail");
    assert!(matches!(&err, ParseError::UnknownElement { name } if name == "b"));
}

#[test]
fn unknown_markup_is_rejected() {
    let err = parse_cell(&vec![elem("p", &[], vec![])]).expect_err("p element must fail");
    assert!(matches!(&err, ParseError::UnknownElement { name } if name == "p"));

    let err = parse_cell(&vec![elem("div", &[("align", "left")], vec![])])
        .expect_err("left-aligned div must fail");
    assert!(matches!(err, ParseError::UnexpectedDiv));

    let err = parse_cell(&vec![elem("div", &[], vec![])]).expect_err("plain div must fail");
    assert!(matches!(err, ParseError::UnexpectedDiv));

    let err = parse_cell(&vec![DomNode::Other]).expect_err("comment node must fail");
    assert!(matches!(err, ParseError::UnexpectedNodeKind));
    assert_eq!(err.describe(), "unexpected node kind");
}

#[test]
fn attribute_lookup_takes_first_match() {
    let e = Element {
        name: "font".to_string(),
        attrs: vec![
            Attribute { name: "size".to_string(), value: "-1".to_string() },
            Attribute { name: "size".to_string(), value: "+2".to_string() },
        ],
        children: vec![],
    };
    assert_eq!(e.attr("size").map(|s| s.as_str()), Some("-1"));
    assert_eq!(e.attr("color"), None);
}

#[test]
fn str_eq_compares_by_characters() {
    assert!(radula::str_eq("", ""));
    assert!(radula::str_eq("abc", "abc"));
    assert!(!radula::str_eq("abc", "abd"));
    assert!(!radula::str_eq("abc", "abcd"));
    assert!(radula::str_eq("żółć", "żółć"));
    assert!(!radula::str_eq("żółć", "zolc"));
}
