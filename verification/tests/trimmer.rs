use radula::style_parser::text_fragment::FontStyle;
use radula::style_parser::text_fragment::TextFragment;
use radula::style_parser::translation::TranslationFragment;
use radula::style_parser::trimmer::trim_cell;
use radula::style_parser::TableCell;
use radula::ParseError;

fn frag(t: &str) -> TextFragment {
    TextFragment::new(t.to_string())
}

fn line(texts: &[&str]) -> Vec<TextFragment> {
    texts.iter().map(|t| frag(t)).collect()
}

fn texts(cell: &TableCell) -> Vec<Vec<String>> {
    cell.iter()
        .map(|l| l.iter().map(|f| f.text().to_string()).collect())
        .collect()
}

#[test]
fn interior_blank_lines_are_preserved() {
    let cell: TableCell = vec![line(&["A"]), line(&[""]), line(&["B"])];
    let trimmed = trim_cell(&cell);
    assert_eq!(texts(&trimmed), vec![vec!["A"], vec![""], vec!["B"]]);
}

#[test]
fn boundary_blank_lines_are_dropped() {
    let cell: TableCell = vec![
        line(&[]),
        line(&[" \t "]),
        line(&["A", "  "]),
        line(&["\u{a0}"]),
        line(&["B"]),
        line(&["\n"]),
    ];
    let trimmed = trim_cell(&cell);
    assert_eq!(
        texts(&trimmed),
        vec![vec!["A".to_string(), "  ".to_string()], vec!["\u{a0}".to_string()], vec![
            "B".to_string()
        ]]
    );
}

#[test]
fn trimming_twice_equals_trimming_once() {
    let cell: TableCell = vec![line(&["  "]), line(&["x"]), line(&[]), line(&["y"]), line(&[""])];
    let once = trim_cell(&cell);
    let twice = trim_cell(&once);
    assert_eq!(texts(&once), texts(&twice));
}

#[test]
fn trimming_without_blank_edges_is_a_no_op() {
    let cell: TableCell = vec![line(&["a"]), line(&["   "]), line(&["b"])];
    let trimmed = trim_cell(&cell);
    assert_eq!(texts(&trimmed), texts(&cell));
}

#[test]
fn all_blank_cell_trims_to_empty() {
    let cell: TableCell = vec![line(&["  "]), line(&[]), line(&["\t\n"])];
    assert!(trim_cell(&cell).is_empty());
    let empty: TableCell = vec![];
    assert!(trim_cell(&empty).is_empty());
}

#[test]
fn pairing_requires_identical_styles() {
    let latin = TextFragment::new_with_style(FontStyle::RedFont, "Oremus.".to_string());
    let matching = TextFragment::new_with_style(FontStyle::RedFont, "Módlmy się.".to_string());
    let paired = TranslationFragment::from(&latin, &matching).expect("same style pairs");
    assert_eq!(paired.font_style, FontStyle::RedFont);
    assert_eq!(paired.latin, "Oremus.");
    assert_eq!(paired.translation, "Módlmy się.");

    let clashing = TextFragment::new_with_style(FontStyle::SmallText, "nota".to_string());
    let err = TranslationFragment::from(&latin, &clashing).expect_err("styles differ");
    assert!(matches!(err, ParseError::StyleMismatch));
    assert_eq!(err.describe(), "fragments differ in style");
}
