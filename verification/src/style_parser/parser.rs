use vstd::prelude::*;

use crate::dom::spec_attr;
use crate::dom::DomNode;
use crate::dom::Element;
use crate::error::spec_kind;
use crate::error::ErrModel;
use crate::error::ErrorKind;
use crate::error::ParseError;
use crate::str_eq;
use crate::style_parser::spec_cell;
use crate::style_parser::spec_line;
use crate::style_parser::TableCell;
use crate::style_parser::TextLine;
use crate::style_parser::text_fragment::FontStyle;
use crate::style_parser::text_fragment::FragView;
use crate::style_parser::text_fragment::TextFragment;

verus! {

/// The text of the sole child, which must be a text node.
pub open spec fn spec_sole_text(children: Seq<DomNode>) -> Result<Seq<char>, ErrModel> {
    if children.len() != 1 {
        Err(ErrModel::ExpectedSingleChild)
    } else {
        match children[0] {
            DomNode::Text(t) => Ok(t@),
            _ => Err(ErrModel::ExpectedTextNode),
        }
    }
}

/// The sole child, which must be an element named `name`.
pub open spec fn spec_sole_element(children: Seq<DomNode>, name: Seq<char>) -> Result<
    Element,
    ErrModel,
> {
    if children.len() != 1 {
        Err(ErrModel::ExpectedElement { name })
    } else {
        match children[0] {
            DomNode::Elem(e) => if e.name@ == name {
                Ok(e)
            } else {
                Err(ErrModel::ExpectedElement { name })
            },
            _ => Err(ErrModel::ExpectedElement { name }),
        }
    }
}

/// The text under a `font` wrapping exactly one `i` around one text node.
pub open spec fn spec_font_italic(e: Element) -> Result<Seq<char>, ErrModel> {
    match spec_sole_element(e.children@, "i"@) {
        Ok(italic) => spec_sole_text(italic.children@),
        Err(err) => Err(err),
    }
}

/// The text under a `font` wrapping exactly one `b` around one `i` around
/// one text node.
pub open spec fn spec_font_bold_italic(e: Element) -> Result<Seq<char>, ErrModel> {
    match spec_sole_element(e.children@, "b"@) {
        Ok(bold) => match spec_sole_element(bold.children@, "i"@) {
            Ok(italic) => spec_sole_text(italic.children@),
            Err(err) => Err(err),
        },
        Err(err) => Err(err),
    }
}

/// The text contributed by one child of a small red `font`: a text node,
/// or a `span` of class `nigra` around one text node.
pub open spec fn spec_small_red_item(n: DomNode) -> Result<Seq<char>, ErrModel> {
    match n {
        DomNode::Text(t) => Ok(t@),
        DomNode::Elem(e) => if e.name@ == "span"@ && spec_attr(e.attrs@, "class"@) == Some(
            "nigra"@,
        ) {
            spec_sole_text(e.children@)
        } else {
            Err(ErrModel::UnknownElement { name: e.name@ })
        },
        DomNode::Other => Err(ErrModel::UnexpectedNodeKind),
    }
}

/// The concatenated text of a small red `font`'s children, in order.
pub open spec fn spec_small_red_text(children: Seq<DomNode>) -> Result<Seq<char>, ErrModel>
    decreases children.len(),
{
    if children.len() == 0 {
        Ok(Seq::<char>::empty())
    } else {
        match spec_small_red_item(children[0]) {
            Err(err) => Err(err),
            Ok(t) => match spec_small_red_text(children.drop_first()) {
                Err(err) => Err(err),
                Ok(rest) => Ok(t + rest),
            },
        }
    }
}

/// The fragment denoted by a `font` element, resolved from its `color` and
/// `size` attributes; any combination outside the recognized table is
/// rejected.
pub open spec fn spec_font_fragment(e: Element) -> Result<FragView, ErrModel> {
    let color = spec_attr(e.attrs@, "color"@);
    let size = spec_attr(e.attrs@, "size"@);
    if color == Some("red"@) {
        if size is None {
            match spec_font_italic(e) {
                Ok(t) => Ok(FragView { style: FontStyle::RedFont, text: t }),
                Err(err) => Err(err),
            }
        } else if size == Some("1"@) {
            match spec_small_red_text(e.children@) {
                Ok(t) => Ok(FragView { style: FontStyle::SmallRed, text: t }),
                Err(err) => Err(err),
            }
        } else if size == Some("+1"@) {
            match spec_font_bold_italic(e) {
                Ok(t) => Ok(FragView { style: FontStyle::LargeFont, text: t }),
                Err(err) => Err(err),
            }
        } else if size == Some("+2"@) {
            match spec_font_bold_italic(e) {
                Ok(t) => Ok(FragView { style: FontStyle::Initial, text: t }),
                Err(err) => Err(err),
            }
        } else {
            Err(ErrModel::FontAttributes { color, size })
        }
    } else if color is None {
        if size == Some("-1"@) {
            match spec_sole_text(e.children@) {
                Ok(t) => Ok(FragView { style: FontStyle::SmallText, text: t }),
                Err(err) => Err(err),
            }
        } else {
            Err(ErrModel::FontAttributes { color, size })
        }
    } else {
        Err(ErrModel::FontAttributes { color, size })
    }
}

/// The fragment denoted by a `span` element, which must carry the one
/// recognized inline style and wrap one text node.
pub open spec fn spec_span_fragment(e: Element) -> Result<FragView, ErrModel> {
    let style = spec_attr(e.attrs@, "style"@);
    if style != Some("color:red; font-size:1.25em"@) {
        Err(ErrModel::SpanStyle { style })
    } else {
        match spec_sole_text(e.children@) {
            Ok(t) => Ok(FragView { style: FontStyle::RedCross, text: t }),
            Err(err) => Err(err),
        }
    }
}

/// What one child node of a cell contributes: a fragment appended to the
/// current line, a line break, or nothing.
pub ghost enum CellStep {
    Frag(FragView),
    Break,
    Skip,
}

/// The contribution of one child node of a cell.
pub open spec fn spec_node_step(n: DomNode) -> Result<CellStep, ErrModel> {
    match n {
        DomNode::Text(t) => Ok(
            CellStep::Frag(FragView { style: FontStyle::DefaultFont, text: t@ }),
        ),
        DomNode::Elem(e) => if e.name@ == "br"@ {
            Ok(CellStep::Break)
        } else if e.name@ == "div"@ {
            if spec_attr(e.attrs@, "align"@) == Some("right"@) {
                Ok(CellStep::Skip)
            } else {
                Err(ErrModel::UnexpectedDiv)
            }
        } else if e.name@ == "font"@ {
            match spec_font_fragment(e) {
                Ok(f) => Ok(CellStep::Frag(f)),
                Err(err) => Err(err),
            }
        } else if e.name@ == "span"@ {
            match spec_span_fragment(e) {
                Ok(f) => Ok(CellStep::Frag(f)),
                Err(err) => Err(err),
            }
        } else {
            Err(ErrModel::UnknownElement { name: e.name@ })
        },
        DomNode::Other => Err(ErrModel::UnexpectedNodeKind),
    }
}

/// The lines of a cell with these child nodes: fragments accumulate on the
/// current line, each `br` closes it, and the line in progress is always
/// emitted at the end, so a cell with no `br` yields exactly one line.
pub open spec fn spec_parse_cell(nodes: Seq<DomNode>) -> Result<Seq<Seq<FragView>>, ErrModel>
    decreases nodes.len(),
{
    if nodes.len() == 0 {
        Ok(seq![Seq::<FragView>::empty()])
    } else {
        match spec_node_step(nodes[0]) {
            Err(err) => Err(err),
            Ok(step) => match spec_parse_cell(nodes.drop_first()) {
                Err(err) => Err(err),
                Ok(rest) => match step {
                    CellStep::Skip => Ok(rest),
                    CellStep::Frag(f) => Ok(rest.update(0, seq![f] + rest[0])),
                    CellStep::Break => Ok(seq![Seq::<FragView>::empty()] + rest),
                },
            },
        }
    }
}

/// A successfully parsed cell always holds at least the final line.
pub proof fn lemma_parse_cell_at_least_one_line(nodes: Seq<DomNode>)
    ensures
        spec_parse_cell(nodes) matches Ok(c) ==> c.len() >= 1,
    decreases nodes.len(),
{
    if nodes.len() > 0 {
        lemma_parse_cell_at_least_one_line(nodes.drop_first());
    }
}

fn first_child_text(children: &Vec<DomNode>) -> (r: Result<String, ParseError>)
    ensures
        match r {
            Ok(t) => spec_sole_text(children@) == Ok::<Seq<char>, ErrModel>(t@),
            Err(e) => spec_sole_text(children@) == Err::<Seq<char>, ErrModel>(e@),
        },
{
    if children.len() != 1 {
        return Err(ParseError::ExpectedSingleChild);
    }
    match &children[0] {
        DomNode::Text(t) => Ok(t.clone()),
        _ => Err(ParseError::ExpectedTextNode),
    }
}

/// Check if a div element is aligned to the right.
///
/// Such a div stands at the top of most rows, holding navigation buttons
/// in the left column and the row number in the right; it is skipped.
pub fn is_div_align_right(div_element: &Element) -> (r: bool)
    ensures
        r == (spec_attr(div_element.attrs@, "align"@) == Some("right"@)),
{
    match div_element.attr("align") {
        Some(v) => str_eq(v.as_str(), "right"),
        None => false,
    }
}

fn sole_element<'a>(children: &'a Vec<DomNode>, name: &str) -> (r: Result<&'a Element, ParseError>)
    ensures
        match r {
            Ok(e) => spec_sole_element(children@, name@) == Ok::<Element, ErrModel>(*e),
            Err(e) => spec_sole_element(children@, name@) == Err::<Element, ErrModel>(e@),
        },
{
    if children.len() != 1 {
        return Err(ParseError::ExpectedElement { name: name.to_owned() });
    }
    match &children[0] {
        DomNode::Elem(e) => {
            if str_eq(e.name.as_str(), name) {
                Ok(e)
            } else {
                Err(ParseError::ExpectedElement { name: name.to_owned() })
            }
        },
        _ => Err(ParseError::ExpectedElement { name: name.to_owned() }),
    }
}

/// Resolves the text of a red `font` without a size: one `i` child around
/// one text node.
pub fn process_font_italic(font: &Element) -> (r: Result<String, ParseError>)
    ensures
        match r {
            Ok(t) => spec_font_italic(*font) == Ok::<Seq<char>, ErrModel>(t@),
            Err(e) => spec_font_italic(*font) == Err::<Seq<char>, ErrModel>(e@),
        },
{
    match sole_element(&font.children, "i") {
        Ok(italic) => first_child_text(&italic.children),
        Err(err) => Err(err),
    }
}

/// Resolves the text of a red `font` of size `+1` or `+2`: one `b` child
/// around one `i` around one text node.
pub fn process_font_bold_italic(font: &Element) -> (r: Result<String, ParseError>)
    ensures
        match r {
            Ok(t) => spec_font_bold_italic(*font) == Ok::<Seq<char>, ErrModel>(t@),
            Err(e) => spec_font_bold_italic(*font) == Err::<Seq<char>, ErrModel>(e@),
        },
{
    match sole_element(&font.children, "b") {
        Ok(bold) => match sole_element(&bold.children, "i") {
            Ok(italic) => first_child_text(&italic.children),
            Err(err) => Err(err),
        },
        Err(err) => Err(err),
    }
}

/// Resolves a red `font` of size `1`: a mixed run of text nodes and
/// `span class="nigra"` elements, concatenated in order into one fragment.
pub fn process_font_small_red(font: &Element) -> (r: Result<TextFragment, ParseError>)
    ensures
        match r {
            Ok(f) => spec_small_red_text(font.children@) == Ok::<Seq<char>, ErrModel>(f@.text)
                && f@.style == FontStyle::SmallRed,
            Err(e) => spec_small_red_text(font.children@) == Err::<Seq<char>, ErrModel>(e@),
        },
{
    let children = &font.children;
    let mut text = String::new();
    let mut i: usize = 0;
    proof {
        assert(children@.skip(0) =~= children@);
    }
    while i < children.len()
        invariant
            children@ == font.children@,
            i <= children@.len(),
            spec_small_red_text(children@) == (match spec_small_red_text(
                children@.skip(i as int),
            ) {
                Ok(rest) => Ok::<Seq<char>, ErrModel>(text@ + rest),
                Err(err) => Err::<Seq<char>, ErrModel>(err),
            }),
        decreases children@.len() - i,
    {
        proof {
            assert(children@.skip(i as int).drop_first() =~= children@.skip(i + 1));
            assert(children@.skip(i as int)[0] == children@[i as int]);
            assert(spec_small_red_text(children@.skip(i as int)) == (match spec_small_red_item(
                children@[i as int],
            ) {
                Err(err) => Err::<Seq<char>, ErrModel>(err),
                Ok(t) => match spec_small_red_text(children@.skip(i + 1)) {
                    Err(err) => Err::<Seq<char>, ErrModel>(err),
                    Ok(rest) => Ok::<Seq<char>, ErrModel>(t + rest),
                },
            }));
        }
        let ghost old_text = text@;
        match &children[i] {
            DomNode::Text(t) => {
                text.append(t.as_str());
                proof {
                    if let Ok(rest) = spec_small_red_text(children@.skip(i + 1)) {
                        assert(old_text + (t@ + rest) =~= text@ + rest);
                    }
                }
            },
            DomNode::Elem(e) => {
                let nigra = str_eq(e.name.as_str(), "span") && (match e.attr("class") {
                    Some(v) => str_eq(v.as_str(), "nigra"),
                    None => false,
                });
                if nigra {
                    match first_child_text(&e.children) {
                        Ok(t) => {
                            text.append(t.as_str());
                            proof {
                                if let Ok(rest) = spec_small_red_text(children@.skip(i + 1)) {
                                    assert(old_text + (t@ + rest) =~= text@ + rest);
                                }
                            }
                        },
                        Err(err) => {
                            return Err(err);
                        },
                    }
                } else {
                    return Err(ParseError::UnknownElement { name: e.name.clone() });
                }
            },
            DomNode::Other => {
                return Err(ParseError::UnexpectedNodeKind);
            },
        }
        i += 1;
    }
    proof {
        assert(children@.skip(children@.len() as int) =~= Seq::<DomNode>::empty());
        assert(text@ + Seq::<char>::empty() =~= text@);
    }
    Ok(TextFragment::new_with_style(FontStyle::SmallRed, text))
}

/// Resolves a `font` element to its fragment by the recognized
/// color/size table.
pub fn process_font_element(font: &Element) -> (r: Result<TextFragment, ParseError>)
    ensures
        match r {
            Ok(f) => spec_font_fragment(*font) == Ok::<FragView, ErrModel>(f@),
            Err(e) => spec_font_fragment(*font) == Err::<FragView, ErrModel>(e@),
        },
{
    let color = font.attr("color");
    match color {
        Some(c) => {
            if str_eq(c.as_str(), "red") {
                match font.attr("size") {
                    None => match process_font_italic(font) {
                        Ok(t) => Ok(TextFragment::new_with_style(FontStyle::RedFont, t)),
                        Err(err) => Err(err),
                    },
                    Some(s) => {
                        if str_eq(s.as_str(), "1") {
                            process_font_small_red(font)
                        } else if str_eq(s.as_str(), "+1") {
                            match process_font_bold_italic(font) {
                                Ok(t) => Ok(TextFragment::new_with_style(FontStyle::LargeFont, t)),
                                Err(err) => Err(err),
                            }
                        } else if str_eq(s.as_str(), "+2") {
                            match process_font_bold_italic(font) {
                                Ok(t) => Ok(TextFragment::new_with_style(FontStyle::Initial, t)),
                                Err(err) => Err(err),
                            }
                        } else {
                            Err(ParseError::FontAttributes {
                                color: Some(c.clone()),
                                size: Some(s.clone()),
                            })
                        }
                    },
                }
            } else {
                let size = match font.attr("size") {
                    Some(s) => Some(s.clone()),
                    None => None,
                };
                Err(ParseError::FontAttributes { color: Some(c.clone()), size })
            }
        },
        None => {
            match font.attr("size") {
                Some(s) => {
                    if str_eq(s.as_str(), "-1") {
                        match first_child_text(&font.children) {
                            Ok(t) => Ok(TextFragment::new_with_style(FontStyle::SmallText, t)),
                            Err(err) => Err(err),
                        }
                    } else {
                        Err(ParseError::FontAttributes { color: None, size: Some(s.clone()) })
                    }
                },
                None => Err(ParseError::FontAttributes { color: None, size: None }),
            }
        },
    }
}

/// Resolves a `span` element: the one recognized inline style around one
/// text node yields a red cross fragment.
pub fn process_span_element(span: &Element) -> (r: Result<TextFragment, ParseError>)
    ensures
        match r {
            Ok(f) => spec_span_fragment(*span) == Ok::<FragView, ErrModel>(f@),
            Err(e) => spec_span_fragment(*span) == Err::<FragView, ErrModel>(e@),
        },
{
    let ok = match span.attr("style") {
        Some(v) => str_eq(v.as_str(), "color:red; font-size:1.25em"),
        None => false,
    };
    if !ok {
        let style = match span.attr("style") {
            Some(v) => Some(v.clone()),
            None => None,
        };
        return Err(ParseError::SpanStyle { style });
    }
    match first_child_text(&span.children) {
        Ok(t) => Ok(TextFragment::new_with_style(FontStyle::RedCross, t)),
        Err(err) => Err(err),
    }
}

/// Walks the child nodes of one cell and produces its styled lines.
pub fn parse_cell(nodes: &Vec<DomNode>) -> (r: Result<TableCell, ParseError>)
    ensures
        match r {
            Ok(cell) => spec_parse_cell(nodes@) == Ok::<Seq<Seq<FragView>>, ErrModel>(
                spec_cell(cell@),
            ),
            Err(e) => spec_parse_cell(nodes@) == Err::<Seq<Seq<FragView>>, ErrModel>(e@),
        },
{
    let mut lines: TableCell = Vec::new();
    let mut current_line: TextLine = Vec::new();
    let mut i: usize = 0;
    proof {
        assert(nodes@.skip(0) =~= nodes@);
        assert(spec_cell(lines@) =~= Seq::<Seq<FragView>>::empty());
        assert(spec_line(current_line@) =~= Seq::<FragView>::empty());
        if let Ok(rest) = spec_parse_cell(nodes@) {
            lemma_parse_cell_at_least_one_line(nodes@);
            assert(spec_cell(lines@) + seq![spec_line(current_line@) + rest[0]]
                + rest.drop_first() =~= rest);
        }
    }
    while i < nodes.len()
        invariant
            i <= nodes@.len(),
            spec_parse_cell(nodes@) == (match spec_parse_cell(nodes@.skip(i as int)) {
                Ok(rest) => Ok::<Seq<Seq<FragView>>, ErrModel>(
                    spec_cell(lines@) + seq![spec_line(current_line@) + rest[0]]
                        + rest.drop_first(),
                ),
                Err(err) => Err::<Seq<Seq<FragView>>, ErrModel>(err),
            }),
        decreases nodes@.len() - i,
    {
        proof {
            assert(nodes@.skip(i as int).drop_first() =~= nodes@.skip(i + 1));
            assert(nodes@.skip(i as int)[0] == nodes@[i as int]);
            lemma_parse_cell_at_least_one_line(nodes@.skip(i + 1));
        }
        let ghost old_lines = spec_cell(lines@);
        let ghost old_line = spec_line(current_line@);
        match &nodes[i] {
            DomNode::Text(t) => {
                current_line.push(TextFragment::new(t.clone()));
                proof {
                    let f = FragView { style: FontStyle::DefaultFont, text: t@ };
                    assert(spec_line(current_line@) =~= old_line.push(f));
                    if let Ok(rest) = spec_parse_cell(nodes@.skip(i + 1)) {
                        assert(old_line + (seq![f] + rest[0]) =~= spec_line(current_line@)
                            + rest[0]);
                        assert(rest.update(0, seq![f] + rest[0]).drop_first()
                            =~= rest.drop_first());
                        assert(old_lines + seq![old_line + (seq![f] + rest[0])] + rest.update(
                            0,
                            seq![f] + rest[0],
                        ).drop_first() =~= old_lines + seq![spec_line(current_line@) + rest[0]]
                            + rest.drop_first());
                    }
                }
            },
            DomNode::Elem(e) => {
                if str_eq(e.name.as_str(), "br") {
                    lines.push(current_line);
                    current_line = Vec::new();
                    proof {
                        assert(spec_cell(lines@) =~= old_lines.push(old_line));
                        assert(spec_line(current_line@) =~= Seq::<FragView>::empty());
                        if let Ok(rest) = spec_parse_cell(nodes@.skip(i + 1)) {
                            let stepped = seq![Seq::<FragView>::empty()] + rest;
                            assert(stepped.drop_first() =~= rest);
                            assert(old_line + stepped[0] =~= old_line);
                            assert(spec_line(current_line@) + rest[0] =~= rest[0]);
                            assert(old_lines + seq![old_line + stepped[0]] + stepped.drop_first()
                                =~= spec_cell(lines@) + seq![spec_line(current_line@) + rest[0]]
                                + rest.drop_first());
                        }
                    }
                } else if str_eq(e.name.as_str(), "div") {
                    if !is_div_align_right(e) {
                        return Err(ParseError::UnexpectedDiv);
                    }
                } else if str_eq(e.name.as_str(), "font") {
                    match process_font_element(e) {
                        Ok(f) => {
                            let ghost fv = f@;
                            current_line.push(f);
                            proof {
                                assert(spec_line(current_line@) =~= old_line.push(fv));
                                if let Ok(rest) = spec_parse_cell(nodes@.skip(i + 1)) {
                                    assert(old_line + (seq![fv] + rest[0]) =~= spec_line(
                                        current_line@,
                                    ) + rest[0]);
                                    assert(rest.update(0, seq![fv] + rest[0]).drop_first()
                                        =~= rest.drop_first());
                                    assert(old_lines + seq![old_line + (seq![fv] + rest[0])]
                                        + rest.update(0, seq![fv] + rest[0]).drop_first()
                                        =~= old_lines + seq![spec_line(current_line@) + rest[0]]
                                        + rest.drop_first());
                                }
                            }
                        },
                        Err(err) => {
                            return Err(err);
                        },
                    }
                } else if str_eq(e.name.as_str(), "span") {
                    match process_span_element(e) {
                        Ok(f) => {
                            let ghost fv = f@;
                            current_line.push(f);
                            proof {
                                assert(spec_line(current_line@) =~= old_line.push(fv));
                                if let Ok(rest) = spec_parse_cell(nodes@.skip(i + 1)) {
                                    assert(old_line + (seq![fv] + rest[0]) =~= spec_line(
                                        current_line@,
                                    ) + rest[0]);
                                    assert(rest.update(0, seq![fv] + rest[0]).drop_first()
                                        =~= rest.drop_first());
                                    assert(old_lines + seq![old_line + (seq![fv] + rest[0])]
                                        + rest.update(0, seq![fv] + rest[0]).drop_first()
                                        =~= old_lines + seq![spec_line(current_line@) + rest[0]]
                                        + rest.drop_first());
                                }
                            }
                        },
                        Err(err) => {
                            return Err(err);
                        },
                    }
                } else {
                    return Err(ParseError::UnknownElement { name: e.name.clone() });
                }
            },
            DomNode::Other => {
                return Err(ParseError::UnexpectedNodeKind);
            },
        }
        i += 1;
    }
    proof {
        assert(nodes@.skip(nodes@.len() as int) =~= Seq::<DomNode>::empty());
    }
    let ghost closed_lines = spec_cell(lines@);
    let ghost last_line = spec_line(current_line@);
    lines.push(current_line);
    proof {
        assert(spec_cell(lines@) =~= closed_lines.push(last_line));
        let rest = seq![Seq::<FragView>::empty()];
        assert(rest.drop_first() =~= Seq::<Seq<FragView>>::empty());
        assert(last_line + rest[0] =~= last_line);
        assert(closed_lines + seq![last_line + rest[0]] + rest.drop_first() =~= spec_cell(
            lines@,
        ));
    }
    Ok(lines)
}

/// Whether the color/size pair is one of the five recognized
/// combinations of the font table.
pub open spec fn spec_listed_font_attrs(color: Option<Seq<char>>, size: Option<Seq<char>>) -> bool {
    (color == Some("red"@) && (size is None || size == Some("1"@) || size == Some("+1"@) || size
        == Some("+2"@))) || (color is None && size == Some("-1"@))
}

/// A `font` whose color/size combination is outside the recognized table
/// is always rejected as unrecognized markup carrying that combination,
/// never resolved to a default style.
pub proof fn lemma_font_rejects_unlisted(e: Element)
    requires
        !spec_listed_font_attrs(spec_attr(e.attrs@, "color"@), spec_attr(e.attrs@, "size"@)),
    ensures
        spec_font_fragment(e) == Err::<FragView, ErrModel>(
            ErrModel::FontAttributes {
                color: spec_attr(e.attrs@, "color"@),
                size: spec_attr(e.attrs@, "size"@),
            },
        ),
        spec_kind(spec_font_fragment(e)->Err_0) == ErrorKind::UnrecognizedMarkup,
{
}

/// Whether `n` is a `br` element.
pub open spec fn spec_is_br(n: DomNode) -> bool {
    n matches DomNode::Elem(e) && e.name@ == "br"@
}

/// The number of `br` elements among `nodes`.
pub open spec fn spec_br_count(nodes: Seq<DomNode>) -> int
    decreases nodes.len(),
{
    if nodes.len() == 0 {
        0
    } else {
        (if spec_is_br(nodes[0]) {
            1int
        } else {
            0int
        }) + spec_br_count(nodes.drop_first())
    }
}

/// The default-styled fragments of the text nodes among `nodes`, in order.
pub open spec fn spec_text_run_frags(nodes: Seq<DomNode>) -> Seq<FragView>
    decreases nodes.len(),
{
    if nodes.len() == 0 {
        Seq::<FragView>::empty()
    } else {
        let rest = spec_text_run_frags(nodes.drop_first());
        match nodes[0] {
            DomNode::Text(t) => seq![FragView { style: FontStyle::DefaultFont, text: t@ }] + rest,
            _ => rest,
        }
    }
}

/// The fragments of a cell's lines, concatenated in reading order.
pub open spec fn spec_frags_of_lines(lines: Seq<Seq<FragView>>) -> Seq<FragView>
    decreases lines.len(),
{
    if lines.len() == 0 {
        Seq::<FragView>::empty()
    } else {
        lines[0] + spec_frags_of_lines(lines.drop_first())
    }
}

/// For a cell of plain text runs separated by `br` elements alone,
/// parsing succeeds, the number of lines is the number of `br` elements
/// plus one, and the fragments across all lines, in order, are exactly
/// the default-styled text runs in their original order.
pub proof fn lemma_plain_cell_round_trip(nodes: Seq<DomNode>)
    requires
        forall|i: int| 0 <= i < nodes.len() ==> nodes[i] is Text || spec_is_br(nodes[i]),
    ensures
        spec_parse_cell(nodes) matches Ok(lines) && lines.len() == spec_br_count(nodes) + 1
            && spec_frags_of_lines(lines) == spec_text_run_frags(nodes),
    decreases nodes.len(),
{
    if nodes.len() == 0 {
        let lines = seq![Seq::<FragView>::empty()];
        assert(lines.drop_first() =~= Seq::<Seq<FragView>>::empty());
        assert(spec_frags_of_lines(Seq::<Seq<FragView>>::empty()) == Seq::<FragView>::empty());
        assert(lines[0] == Seq::<FragView>::empty());
        assert(spec_frags_of_lines(lines) == lines[0] + spec_frags_of_lines(lines.drop_first()));
        assert(spec_frags_of_lines(lines) =~= spec_text_run_frags(nodes));
    } else {
        let tail = nodes.drop_first();
        assert forall|i: int| 0 <= i < tail.len() implies tail[i] is Text || spec_is_br(
            tail[i],
        ) by {
            assert(tail[i] == nodes[i + 1]);
        }
        lemma_plain_cell_round_trip(tail);
        let rest = spec_parse_cell(tail)->Ok_0;
        lemma_parse_cell_at_least_one_line(tail);
        if spec_is_br(nodes[0]) {
            let lines = seq![Seq::<FragView>::empty()] + rest;
            assert(spec_parse_cell(nodes) == Ok::<Seq<Seq<FragView>>, ErrModel>(lines));
            assert(lines.drop_first() =~= rest);
            assert(lines[0] + spec_frags_of_lines(rest) =~= spec_frags_of_lines(rest));
            assert(spec_frags_of_lines(lines) == spec_text_run_frags(nodes));
        } else {
            let t = nodes[0]->Text_0;
            let f = FragView { style: FontStyle::DefaultFont, text: t@ };
            let lines = rest.update(0, seq![f] + rest[0]);
            assert(spec_node_step(nodes[0]) == Ok::<CellStep, ErrModel>(CellStep::Frag(f)));
            assert(spec_parse_cell(nodes) == Ok::<Seq<Seq<FragView>>, ErrModel>(lines));
            assert(lines.drop_first() =~= rest.drop_first());
            assert(lines[0] =~= seq![f] + rest[0]);
            assert(spec_frags_of_lines(lines) == (seq![f] + rest[0]) + spec_frags_of_lines(
                rest.drop_first(),
            ));
            assert((seq![f] + rest[0]) + spec_frags_of_lines(rest.drop_first()) =~= seq![f] + (
            rest[0] + spec_frags_of_lines(rest.drop_first())));
            assert(spec_text_run_frags(nodes) == seq![f] + spec_text_run_frags(tail));
            assert(spec_frags_of_lines(lines) == spec_text_run_frags(nodes));
        }
    }
}

} // verus!