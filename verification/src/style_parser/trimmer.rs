use vstd::prelude::*;

use crate::style_parser::spec_cell;
use crate::style_parser::spec_line;
use crate::style_parser::TableCell;
use crate::style_parser::TextLine;
use crate::style_parser::text_fragment::FragView;
use crate::style_parser::text_fragment::TextFragment;

verus! {

/// Whether `c` carries the Unicode white-space property, the set that
/// surrounding-whitespace trimming strips.
pub open spec fn spec_is_space(c: char) -> bool {
    let u = c as u32;
    u == 0x09 || u == 0x0A || u == 0x0B || u == 0x0C || u == 0x0D || u == 0x20 || u == 0x85
        || u == 0xA0 || u == 0x1680 || (0x2000 <= u && u <= 0x200A) || u == 0x2028 || u == 0x2029
        || u == 0x202F || u == 0x205F || u == 0x3000
}

/// Whether `t` is empty after trimming surrounding whitespace, that is,
/// every character of it is white space.
pub open spec fn spec_blank_text(t: Seq<char>) -> bool {
    forall|i: int| 0 <= i < t.len() ==> spec_is_space(t[i])
}

/// Whether a fragment is trimmed-empty.
pub open spec fn spec_blank_frag(f: FragView) -> bool {
    spec_blank_text(f.text)
}

/// Whether every fragment of a line is trimmed-empty.
pub open spec fn spec_blank_line(l: Seq<FragView>) -> bool {
    forall|i: int| 0 <= i < l.len() ==> spec_blank_frag(l[i])
}

/// The count of blank lines at the front of a cell.
pub open spec fn spec_lead_blanks(c: Seq<Seq<FragView>>) -> int
    decreases c.len(),
{
    if c.len() == 0 {
        0
    } else if spec_blank_line(c[0]) {
        1 + spec_lead_blanks(c.drop_first())
    } else {
        0
    }
}

/// The count of blank lines at the back of a cell.
pub open spec fn spec_trail_blanks(c: Seq<Seq<FragView>>) -> int
    decreases c.len(),
{
    if c.len() == 0 {
        0
    } else if spec_blank_line(c.last()) {
        1 + spec_trail_blanks(c.drop_last())
    } else {
        0
    }
}

/// A cell without its leading and trailing blank lines; interior blank
/// lines stay.
pub open spec fn spec_trim(c: Seq<Seq<FragView>>) -> Seq<Seq<FragView>> {
    if spec_lead_blanks(c) == c.len() {
        Seq::empty()
    } else {
        c.subrange(spec_lead_blanks(c), c.len() - spec_trail_blanks(c))
    }
}

proof fn lemma_lead_blanks_bounds(c: Seq<Seq<FragView>>)
    ensures
        0 <= spec_lead_blanks(c) <= c.len(),
        forall|i: int| 0 <= i < spec_lead_blanks(c) ==> spec_blank_line(c[i]),
        spec_lead_blanks(c) < c.len() ==> !spec_blank_line(c[spec_lead_blanks(c)]),
    decreases c.len(),
{
    if c.len() > 0 && spec_blank_line(c[0]) {
        lemma_lead_blanks_bounds(c.drop_first());
        let lead = spec_lead_blanks(c);
        assert forall|i: int| 0 <= i < lead implies spec_blank_line(c[i]) by {
            if i > 0 {
                assert(c.drop_first()[i - 1] == c[i]);
            }
        }
        if lead < c.len() {
            assert(c.drop_first()[lead - 1] == c[lead]);
        }
    }
}

proof fn lemma_trail_blanks_bounds(c: Seq<Seq<FragView>>)
    ensures
        0 <= spec_trail_blanks(c) <= c.len(),
        forall|i: int| c.len() - spec_trail_blanks(c) <= i < c.len() ==> spec_blank_line(c[i]),
        spec_trail_blanks(c) < c.len() ==> !spec_blank_line(
            c[c.len() - spec_trail_blanks(c) - 1],
        ),
    decreases c.len(),
{
    if c.len() > 0 && spec_blank_line(c.last()) {
        lemma_trail_blanks_bounds(c.drop_last());
        let trail = spec_trail_blanks(c);
        assert forall|i: int| c.len() - trail <= i < c.len() implies spec_blank_line(c[i]) by {
            if i < c.len() - 1 {
                assert(c.drop_last()[i] == c[i]);
            }
        }
        if trail < c.len() {
            assert(c.drop_last()[c.len() - trail - 1] == c[c.len() - trail - 1]);
        }
    }
}

proof fn lemma_lead_blanks_is(c: Seq<Seq<FragView>>, k: int)
    requires
        0 <= k <= c.len(),
        forall|i: int| 0 <= i < k ==> spec_blank_line(c[i]),
        k < c.len() ==> !spec_blank_line(c[k]),
    ensures
        spec_lead_blanks(c) == k,
{
    lemma_lead_blanks_bounds(c);
}

proof fn lemma_trail_blanks_is(c: Seq<Seq<FragView>>, k: int)
    requires
        0 <= k <= c.len(),
        forall|i: int| c.len() - k <= i < c.len() ==> spec_blank_line(c[i]),
        k < c.len() ==> !spec_blank_line(c[c.len() - k - 1]),
    ensures
        spec_trail_blanks(c) == k,
{
    lemma_trail_blanks_bounds(c);
}

/// Trimming a cell twice yields the same result as trimming it once.
pub proof fn lemma_trim_idempotent(c: Seq<Seq<FragView>>)
    ensures
        spec_trim(spec_trim(c)) == spec_trim(c),
{
    lemma_lead_blanks_bounds(c);
    lemma_trail_blanks_bounds(c);
    if spec_lead_blanks(c) == c.len() {
        assert(spec_trim(c) =~= Seq::<Seq<FragView>>::empty());
        assert(spec_trim(spec_trim(c)) =~= spec_trim(c));
    } else {
        let lead = spec_lead_blanks(c);
        let trail = spec_trail_blanks(c);
        let t = spec_trim(c);
        if lead >= c.len() - trail {
            assert(spec_blank_line(c[lead]));
            assert(false);
        }
        assert(t[0] == c[lead]);
        assert(t.last() == c[c.len() - trail - 1]);
        lemma_lead_blanks_is(t, 0);
        lemma_trail_blanks_is(t, 0);
        assert(spec_trim(t) =~= t.subrange(0, t.len() as int));
        assert(spec_trim(t) =~= t);
    }
}

/// Trimming a cell whose first and last lines are not blank is a no-op.
pub proof fn lemma_trim_no_blank_edges(c: Seq<Seq<FragView>>)
    requires
        c.len() > 0,
        !spec_blank_line(c[0]),
        !spec_blank_line(c[c.len() - 1]),
    ensures
        spec_trim(c) == c,
{
    lemma_lead_blanks_is(c, 0);
    lemma_trail_blanks_is(c, 0);
    assert(spec_trim(c) =~= c);
}

/// Trimming a cell of blank lines only yields the empty cell.
pub proof fn lemma_trim_all_blank(c: Seq<Seq<FragView>>)
    requires
        forall|i: int| 0 <= i < c.len() ==> spec_blank_line(c[i]),
    ensures
        spec_trim(c) == Seq::<Seq<FragView>>::empty(),
{
    lemma_lead_blanks_is(c, c.len() as int);
    assert(spec_trim(c) =~= Seq::<Seq<FragView>>::empty());
}

fn is_space_char(c: char) -> (r: bool)
    ensures
        r == spec_is_space(c),
{
    let u = c as u32;
    u == 0x09 || u == 0x0A || u == 0x0B || u == 0x0C || u == 0x0D || u == 0x20 || u == 0x85
        || u == 0xA0 || u == 0x1680 || (0x2000 <= u && u <= 0x200A) || u == 0x2028 || u == 0x2029
        || u == 0x202F || u == 0x205F || u == 0x3000
}

fn fragment_blank(f: &TextFragment) -> (r: bool)
    ensures
        r == spec_blank_frag(f@),
{
    let s = f.text();
    let n = s.unicode_len();
    let mut i: usize = 0;
    while i < n
        invariant
            s@ == f@.text,
            n == s@.len(),
            i <= n,
            forall|j: int| 0 <= j < i ==> spec_is_space(s@[j]),
        decreases n - i,
    {
        if !is_space_char(s.get_char(i)) {
            return false;
        }
        i += 1;
    }
    true
}

fn line_blank(l: &TextLine) -> (r: bool)
    ensures
        r == spec_blank_line(spec_line(l@)),
{
    let mut i: usize = 0;
    while i < l.len()
        invariant
            i <= l@.len(),
            forall|j: int| 0 <= j < i ==> spec_blank_frag(spec_line(l@)[j]),
        decreases l@.len() - i,
    {
        if !fragment_blank(&l[i]) {
            assert(!spec_blank_frag(spec_line(l@)[i as int]));
            return false;
        }
        i += 1;
    }
    true
}

fn duplicate_line(l: &TextLine) -> (r: TextLine)
    ensures
        spec_line(r@) == spec_line(l@),
{
    let mut out: TextLine = Vec::new();
    let mut i: usize = 0;
    while i < l.len()
        invariant
            i <= l@.len(),
            out@.len() == i,
            forall|j: int| 0 <= j < i ==> out@[j]@ == l@[j]@,
        decreases l@.len() - i,
    {
        out.push(l[i].duplicate());
        i += 1;
    }
    proof {
        assert(spec_line(out@) =~= spec_line(l@));
    }
    out
}

fn first_non_blank(cell: &TableCell) -> (r: usize)
    ensures
        r <= cell@.len(),
        forall|i: int| 0 <= i < r ==> spec_blank_line(spec_cell(cell@)[i]),
        r < cell@.len() ==> !spec_blank_line(spec_cell(cell@)[r as int]),
{
    let mut i: usize = 0;
    while i < cell.len()
        invariant
            i <= cell@.len(),
            forall|j: int| 0 <= j < i ==> spec_blank_line(spec_cell(cell@)[j]),
        decreases cell@.len() - i,
    {
        if !line_blank(&cell[i]) {
            return i;
        }
        i += 1;
    }
    i
}

fn end_of_non_blank(cell: &TableCell) -> (r: usize)
    ensures
        r <= cell@.len(),
        forall|i: int| r <= i < cell@.len() ==> spec_blank_line(spec_cell(cell@)[i]),
        r > 0 ==> !spec_blank_line(spec_cell(cell@)[r - 1]),
{
    let mut i: usize = cell.len();
    while i > 0
        invariant
            i <= cell@.len(),
            forall|j: int| i <= j < cell@.len() ==> spec_blank_line(spec_cell(cell@)[j]),
        decreases i,
    {
        if !line_blank(&cell[i - 1]) {
            return i;
        }
        i -= 1;
    }
    i
}

/// Drops the leading and trailing lines of a cell that are blank after
/// whitespace trimming; interior blank lines are preserved, and an
/// all-blank cell becomes empty.
pub fn trim_cell(cell: &TableCell) -> (r: TableCell)
    ensures
        spec_cell(r@) == spec_trim(spec_cell(cell@)),
{
    let ghost m = spec_cell(cell@);
    let lo = first_non_blank(cell);
    if lo == cell.len() {
        proof {
            lemma_lead_blanks_is(m, lo as int);
            assert(spec_cell(Seq::<TextLine>::empty()) =~= Seq::<Seq<FragView>>::empty());
        }
        return Vec::new();
    }
    let hi = end_of_non_blank(cell);
    proof {
        lemma_lead_blanks_is(m, lo as int);
        if hi == 0 {
            assert(spec_blank_line(m[lo as int]));
            assert(false);
        }
        lemma_trail_blanks_is(m, m.len() - hi);
        if hi <= lo {
            assert(spec_blank_line(m[lo as int]));
            assert(false);
        }
    }
    let mut out: TableCell = Vec::new();
    let mut j: usize = lo;
    while j < hi
        invariant
            lo <= j <= hi <= cell@.len(),
            m == spec_cell(cell@),
            spec_cell(out@) =~= m.subrange(lo as int, j as int),
        decreases hi - j,
    {
        let ghost old_out = spec_cell(out@);
        out.push(duplicate_line(&cell[j]));
        proof {
            assert(spec_cell(out@) =~= old_out.push(spec_line(cell@[j as int]@)));
            assert(spec_cell(out@) =~= m.subrange(lo as int, j + 1));
        }
        j += 1;
    }
    proof {
        assert(spec_cell(out@) =~= m.subrange(lo as int, hi as int));
        assert(spec_trim(m) == m.subrange(lo as int, m.len() - (m.len() - hi)));
        assert(m.subrange(lo as int, m.len() - (m.len() - hi)) =~= m.subrange(
            lo as int,
            hi as int,
        ));
    }
    out
}

} // verus!
