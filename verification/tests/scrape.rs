use radula::scraper::scrape_officium;
use radula::scraper::PageSource;
use radula::style_parser::parse_table;
use radula::style_parser::parser::parse_cell;
use radula::style_parser::text_fragment::FontStyle;
use radula::style_parser::RowSource;
use radula::Attribute;
use radula::DomNode;
use radula::Element;
use radula::ErrorKind;
use radula::ParseError;

fn convert_node(node: ego_tree::NodeRef<scraper::Node>) -> DomNode {
    match node.value() {
        scraper::Node::Text(t) => DomNode::Text(t.to_string()),
        scraper::Node::Element(e) => DomNode::Elem(Element {
            name: e.name().to_string(),
            attrs: e
                .attrs()
                .map(|(k, v)| Attribute { name: k.to_string(), value: v.to_string() })
                .collect(),
            children: node.children().map(convert_node).collect(),
        }),
        _ => DomNode::Other,
    }
}

fn cell_nodes(markup: &str) -> Vec<DomNode> {
    let html = format!("<html><body><table><tr><td>{markup}</td></tr></table></body></html>");
    let document = scraper::Html::parse_document(&html);
    let selector = scraper::Selector::parse("td").expect("td is a correct HTML element");
    let cell = document.select(&selector).next().expect("document holds the cell");
    cell.children().map(convert_node).collect()
}

fn text(t: &str) -> DomNode {
    DomNode::Text(t.to_string())
}

#[test]
fn real_markup_scenario_red_font_then_plain() {
    let nodes = cell_nodes(r#"<font color="red"><i>Amen.</i></font><br>plain text"#);
    let cell = parse_cell(&nodes).expect("cell parses");
    assert_eq!(cell.len(), 2);
    assert_eq!(*cell[0][0].font_style(), FontStyle::RedFont);
    assert_eq!(cell[0][0].text(), "Amen.");
    assert_eq!(*cell[1][0].font_style(), FontStyle::DefaultFont);
    assert_eq!(cell[1][0].text(), "plain text");
}

#[test]
fn real_markup_scenario_right_div() {
    let nodes = cell_nodes(r#"<div align="right">Top</div><font size="-1">note</font>"#);
    let cell = parse_cell(&nodes).expect("cell parses");
    assert_eq!(cell.len(), 1);
    assert_eq!(cell[0].len(), 1);
    assert_eq!(*cell[0][0].font_style(), FontStyle::SmallText);
    assert_eq!(cell[0][0].text(), "note");
}

#[test]
fn real_markup_scenario_blue_span() {
    let nodes = cell_nodes(r#"<span style="color:blue">x</span>"#);
    let err = parse_cell(&nodes).expect_err("blue span must fail");
    assert_eq!(err.kind(), ErrorKind::UnrecognizedMarkup);
    assert!(matches!(&err, ParseError::SpanStyle { style: Some(s) } if s == "color:blue"));
}

#[test]
fn real_markup_comment_is_rejected() {
    let nodes = cell_nodes("a<!-- note -->b");
    let err = parse_cell(&nodes).expect_err("comment must fail");
    assert!(matches!(err, ParseError::UnexpectedNodeKind));
}

#[test]
fn row_arity_is_enforced() {
    let one_cell: Vec<RowSource> = vec![vec![vec![text("solo")]]];
    let err = parse_table(&one_cell).expect_err("one td must fail");
    assert!(matches!(err, ParseError::MissingRightColumn));
    assert_eq!(err.kind(), ErrorKind::MissingStructure);
    assert_eq!(err.describe(), "right column not found");

    let no_cell: Vec<RowSource> = vec![vec![]];
    let err = parse_table(&no_cell).expect_err("no td must fail");
    assert!(matches!(err, ParseError::MissingLeftColumn));

    let three_cells: Vec<RowSource> = vec![vec![
        vec![text("latin")],
        vec![text("polski")],
        vec![DomNode::Other],
    ]];
    let table = parse_table(&three_cells).expect("extra cells are ignored");
    assert_eq!(table.len(), 1);
    assert_eq!(table[0].latin[0][0].text(), "latin");
    assert_eq!(table[0].translation[0][0].text(), "polski");
}

#[test]
fn table_rows_are_parsed_and_trimmed_in_order() {
    let rows: Vec<RowSource> = vec![
        vec![
            vec![text("  "), DomNode::Elem(Element {
                name: "br".to_string(),
                attrs: vec![],
                children: vec![],
            }), text("Pater")],
            vec![text("Ojcze")],
        ],
        vec![vec![text("noster")], vec![text("nasz")]],
    ];
    let table = parse_table(&rows).expect("table parses");
    assert_eq!(table.len(), 2);
    assert_eq!(table[0].latin.len(), 1);
    assert_eq!(table[0].latin[0][0].text(), "Pater");
    assert_eq!(table[0].translation[0][0].text(), "Ojcze");
    assert_eq!(table[1].latin[0][0].text(), "noster");
    assert_eq!(table[1].translation[0][0].text(), "nasz");
}

#[test]
fn bad_cell_fails_the_whole_table() {
    let rows: Vec<RowSource> = vec![
        vec![vec![text("bene")], vec![text("dobrze")]],
        vec![vec![text("x")], vec![DomNode::Elem(Element {
            name: "table".to_string(),
            attrs: vec![],
            children: vec![],
        })]],
    ];
    let err = parse_table(&rows).expect_err("unknown element must fail the table");
    assert!(matches!(&err, ParseError::UnknownElement { name } if name == "table"));
}

#[test]
fn officium_part_carries_names_and_content() {
    let page = PageSource {
        day_name: Some("Feria Secunda infra Hebdomadam".to_string()),
        part_name: Some("Ad Vesperas".to_string()),
        rows: vec![vec![vec![text("Deus")], vec![text("Boże")]]],
    };
    let part = scrape_officium(&page).expect("page assembles");
    assert_eq!(part.day_name, "Feria Secunda infra Hebdomadam");
    assert_eq!(part.part_name, "Ad Vesperas");
    assert_eq!(part.content.len(), 1);
    assert_eq!(part.content[0].latin[0][0].text(), "Deus");
}

#[test]
fn missing_header_names_are_reported() {
    let no_day = PageSource { day_name: None, part_name: Some("Ad Vesperas".to_string()), rows: vec![] };
    let err = scrape_officium(&no_day).expect_err("missing day name must fail");
    assert!(matches!(err, ParseError::MissingDayName));
    assert_eq!(err.kind(), ErrorKind::MissingStructure);

    let no_part = PageSource { day_name: Some("Feria".to_string()), part_name: None, rows: vec![] };
    let err = scrape_officium(&no_part).expect_err("missing part name must fail");
    assert!(matches!(err, ParseError::MissingPartName));
}
