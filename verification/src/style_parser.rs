use vstd::prelude::*;

pub mod parser;
pub mod text_fragment;
pub mod translation;
pub mod trimmer;

use crate::dom::DomNode;
use crate::error::ErrModel;
use crate::error::ParseError;
use crate::style_parser::parser::parse_cell;
use crate::style_parser::parser::spec_parse_cell;
use crate::style_parser::text_fragment::FragView;
use crate::style_parser::text_fragment::TextFragment;
use crate::style_parser::trimmer::spec_trim;
use crate::style_parser::trimmer::trim_cell;

verus! {

/// One visual line: an ordered sequence of styled fragments.
pub type TextLine = Vec<TextFragment>;

/// The parsed content of one table cell: an ordered sequence of lines.
pub type TableCell = Vec<TextLine>;

/// The child nodes of one `td` element, in document order.
pub type CellSource = Vec<DomNode>;

/// The `td` contents of one `tr` element, in document order.
pub type RowSource = Vec<CellSource>;

/// One table row: the Latin cell and its translation cell.
#[derive(Debug)]
pub struct TableRow {
    pub latin: TableCell,
    pub translation: TableCell,
}

/// The whole parsed table, one entry per source row, in document order.
pub type MainTable = Vec<TableRow>;

/// The mathematical value of one line.
pub open spec fn spec_line(l: Seq<TextFragment>) -> Seq<FragView> {
    l.map_values(|f: TextFragment| f@)
}

/// The mathematical value of one cell.
pub open spec fn spec_cell(c: Seq<TextLine>) -> Seq<Seq<FragView>> {
    c.map_values(|l: TextLine| spec_line(l@))
}

/// The mathematical value of a sequence of node lists.
pub open spec fn spec_sources(s: Seq<CellSource>) -> Seq<Seq<DomNode>> {
    s.map_values(|v: CellSource| v@)
}

/// The mathematical value of one row.
pub ghost struct RowView {
    pub latin: Seq<Seq<FragView>>,
    pub translation: Seq<Seq<FragView>>,
}

impl View for TableRow {
    type V = RowView;

    open spec fn view(&self) -> RowView {
        RowView { latin: spec_cell(self.latin@), translation: spec_cell(self.translation@) }
    }
}

/// The parsed and trimmed pair of cells of one row: the first two `td`
/// contents are used, and extras are ignored; fewer than two is a failure.
pub open spec fn spec_row(tds: Seq<Seq<DomNode>>) -> Result<RowView, ErrModel> {
    if tds.len() == 0 {
        Err(ErrModel::MissingLeftColumn)
    } else if tds.len() == 1 {
        Err(ErrModel::MissingRightColumn)
    } else {
        match spec_parse_cell(tds[0]) {
            Err(err) => Err(err),
            Ok(latin) => match spec_parse_cell(tds[1]) {
                Err(err) => Err(err),
                Ok(translation) => Ok(
                    RowView { latin: spec_trim(latin), translation: spec_trim(translation) },
                ),
            },
        }
    }
}

/// The parsed rows of the whole table, in document order; any row failure
/// is the table's failure.
pub open spec fn spec_table(rows: Seq<Seq<Seq<DomNode>>>) -> Result<Seq<RowView>, ErrModel>
    decreases rows.len(),
{
    if rows.len() == 0 {
        Ok(Seq::<RowView>::empty())
    } else {
        match spec_row(rows[0]) {
            Err(err) => Err(err),
            Ok(row) => match spec_table(rows.drop_first()) {
                Err(err) => Err(err),
                Ok(rest) => Ok(seq![row] + rest),
            },
        }
    }
}

/// The mathematical value of a sequence of row sources.
pub open spec fn spec_row_sources(rows: Seq<RowSource>) -> Seq<Seq<Seq<DomNode>>> {
    rows.map_values(|r: RowSource| spec_sources(r@))
}

/// The mathematical value of a sequence of parsed rows.
pub open spec fn spec_rows(t: Seq<TableRow>) -> Seq<RowView> {
    t.map_values(|r: TableRow| r@)
}

/// A row with fewer than two cells is rejected, naming the missing side;
/// one with more than two cells parses from its first two cells alone.
pub proof fn lemma_row_arity(tds: Seq<Seq<DomNode>>)
    ensures
        tds.len() == 0 ==> spec_row(tds) == Err::<RowView, ErrModel>(ErrModel::MissingLeftColumn),
        tds.len() == 1 ==> spec_row(tds) == Err::<RowView, ErrModel>(ErrModel::MissingRightColumn),
        tds.len() >= 2 ==> spec_row(tds) == spec_row(tds.subrange(0, 2)),
{
    if tds.len() >= 2 {
        assert(tds.subrange(0, 2)[0] == tds[0]);
        assert(tds.subrange(0, 2)[1] == tds[1]);
    }
}

/// Parses and trims the first two cells of one row into a Latin and a
/// translation cell.
pub fn parse_row(tds: &RowSource) -> (r: Result<TableRow, ParseError>)
    ensures
        match r {
            Ok(row) => spec_row(spec_sources(tds@)) == Ok::<RowView, ErrModel>(row@),
            Err(e) => spec_row(spec_sources(tds@)) == Err::<RowView, ErrModel>(e@),
        },
{
    if tds.len() == 0 {
        return Err(ParseError::MissingLeftColumn);
    }
    if tds.len() == 1 {
        return Err(ParseError::MissingRightColumn);
    }
    let latin_cell = match parse_cell(&tds[0]) {
        Ok(c) => c,
        Err(err) => {
            return Err(err);
        },
    };
    let translation_cell = match parse_cell(&tds[1]) {
        Ok(c) => c,
        Err(err) => {
            return Err(err);
        },
    };
    let latin = trim_cell(&latin_cell);
    let translation = trim_cell(&translation_cell);
    Ok(TableRow { latin, translation })
}

/// Parses every row of the table, in document order; any row failure
/// aborts the whole table.
pub fn parse_table(rows: &Vec<RowSource>) -> (r: Result<MainTable, ParseError>)
    ensures
        match r {
            Ok(t) => spec_table(spec_row_sources(rows@)) == Ok::<Seq<RowView>, ErrModel>(
                spec_rows(t@),
            ),
            Err(e) => spec_table(spec_row_sources(rows@)) == Err::<Seq<RowView>, ErrModel>(e@),
        },
{
    let ghost m = spec_row_sources(rows@);
    let mut out: MainTable = Vec::new();
    let mut i: usize = 0;
    proof {
        assert(m.skip(0) =~= m);
        if let Ok(rest) = spec_table(m) {
            assert(spec_rows(out@) =~= Seq::<RowView>::empty());
            assert(spec_rows(out@) + rest =~= rest);
        }
    }
    while i < rows.len()
        invariant
            m == spec_row_sources(rows@),
            i <= rows@.len(),
            spec_table(m) == (match spec_table(m.skip(i as int)) {
                Ok(rest) => Ok::<Seq<RowView>, ErrModel>(spec_rows(out@) + rest),
                Err(err) => Err::<Seq<RowView>, ErrModel>(err),
            }),
        decreases rows@.len() - i,
    {
        proof {
            assert(m.skip(i as int).drop_first() =~= m.skip(i + 1));
            assert(m.skip(i as int)[0] == m[i as int]);
        }
        match parse_row(&rows[i]) {
            Ok(row) => {
                let ghost old_rows = spec_rows(out@);
                let ghost rv = row@;
                out.push(row);
                proof {
                    assert(spec_rows(out@) =~= old_rows.push(rv));
                    if let Ok(rest) = spec_table(m.skip(i + 1)) {
                        assert(old_rows + (seq![rv] + rest) =~= spec_rows(out@) + rest);
                    }
                }
            },
            Err(err) => {
                return Err(err);
            },
        }
        i += 1;
    }
    proof {
        assert(m.skip(rows@.len() as int) =~= Seq::<Seq<Seq<DomNode>>>::empty());
        if let Ok(rest) = spec_table(m.skip(rows@.len() as int)) {
            assert(spec_rows(out@) + rest =~= spec_rows(out@));
        }
    }
    Ok(out)
}

} // verus!
