//! A style-aware parser for the bilingual office pages of the Divinum
//! Officium site. The heart is the cell parser: it walks the child nodes
//! of one table cell and yields style-tagged text lines, accepting only a
//! small closed set of markup shapes and rejecting everything else with a
//! descriptive error. Around it stand the line trimmer, the row and table
//! assembly, the bilingual fragment pairing, and the request parameters
//! for fetching one day's page. The document tree is taken as the plain
//! node model of `dom`; an enclosing crate converts a parsed HTML
//! document into that model and hands it over.

use vstd::prelude::*;

pub mod dom;
pub mod error;
pub mod request;
pub mod scraper;
pub mod style_parser;

pub use dom::Attribute;
pub use dom::DomNode;
pub use dom::Element;
pub use error::ErrorKind;
pub use error::ParseError;

verus! {

/// Equality of two string slices by characters.
pub fn str_eq(a: &str, b: &str) -> (r: bool)
    ensures
        r == (a@ == b@),
{
    let n = a.unicode_len();
    if n != b.unicode_len() {
        proof {
            assert(a@ != b@);
        }
        return false;
    }
    let mut i: usize = 0;
    while i < n
        invariant
            n == a@.len(),
            n == b@.len(),
            i <= n,
            forall|j: int| 0 <= j < i ==> a@[j] == b@[j],
        decreases n - i,
    {
        if a.get_char(i) != b.get_char(i) {
            return false;
        }
        i += 1;
    }
    proof {
        assert(a@ =~= b@);
    }
    true
}

} // verus!
