use vstd::prelude::*;

use crate::error::ErrModel;
use crate::error::ParseError;
use crate::style_parser::parse_table;
use crate::style_parser::spec_row_sources;
use crate::style_parser::spec_rows;
use crate::style_parser::spec_table;
use crate::style_parser::MainTable;
use crate::style_parser::RowSource;
use crate::style_parser::RowView;

verus! {

/// What the page-level collaborator extracts from one fetched page: the
/// first text of the heading paragraph, the first text of the part
/// heading, if each is found, and the `td` contents of every table row in
/// document order.
pub struct PageSource {
    pub day_name: Option<String>,
    pub part_name: Option<String>,
    pub rows: Vec<RowSource>,
}

/// Divinum Officium part.
#[derive(Debug)]
pub struct OfficiumPart {
    pub day_name: String,
    pub part_name: String,
    pub content: MainTable,
}

/// Assembles the complete Officium part from one page: both header names
/// must be present and the table must parse; the names pass through
/// unchanged, and any table failure is the page's failure.
pub fn scrape_officium(page: &PageSource) -> (r: Result<OfficiumPart, ParseError>)
    ensures
        match r {
            Ok(part) => (page.day_name matches Some(d) && part.day_name@ == d@) && (
            page.part_name matches Some(p) && part.part_name@ == p@) && spec_table(
                spec_row_sources(page.rows@),
            ) == Ok::<Seq<RowView>, ErrModel>(spec_rows(part.content@)),
            Err(e) => if page.day_name is None {
                e@ == ErrModel::MissingDayName
            } else if page.part_name is None {
                e@ == ErrModel::MissingPartName
            } else {
                spec_table(spec_row_sources(page.rows@)) == Err::<Seq<RowView>, ErrModel>(e@)
            },
        },
{
    let day_name = match &page.day_name {
        Some(d) => d.clone(),
        None => {
            return Err(ParseError::MissingDayName);
        },
    };
    let part_name = match &page.part_name {
        Some(p) => p.clone(),
        None => {
            return Err(ParseError::MissingPartName);
        },
    };
    let content = match parse_table(&page.rows) {
        Ok(t) => t,
        Err(err) => {
            return Err(err);
        },
    };
    Ok(OfficiumPart { day_name, part_name, content })
}

} // verus!
