use vstd::prelude::*;

use crate::error::ErrModel;
use crate::error::ParseError;
use crate::style_parser::text_fragment::FontStyle;
use crate::style_parser::text_fragment::TextFragment;

verus! {

/// A Latin fragment zipped with its positional translation counterpart.
/// The two always carry the same style; construction rejects a pair whose
/// styles differ, so a consumer sees structural drift between the columns
/// instead of silently misaligned runs.
#[derive(Debug)]
pub struct TranslationFragment<'a> {
    pub font_style: FontStyle,
    pub latin: &'a str,
    pub translation: &'a str,
}

impl<'a> TranslationFragment<'a> {
    /// Pairs a Latin fragment with its translation counterpart. The pair
    /// exists if and only if the two fragments' styles are identical.
    pub fn from(latin: &'a TextFragment, translation: &'a TextFragment) -> (r: Result<
        Self,
        ParseError,
    >)
        ensures
            latin@.style == translation@.style ==> (r matches Ok(p) && p.font_style == latin@.style
                && p.latin@ == latin@.text && p.translation@ == translation@.text),
            latin@.style != translation@.style ==> (r matches Err(e) && e@
                == ErrModel::StyleMismatch),
    {
        let style_l = latin.font_style();
        let style_t = translation.font_style();
        if *style_l == *style_t {
            Ok(
                TranslationFragment {
                    font_style: *style_l,
                    latin: latin.text(),
                    translation: translation.text(),
                },
            )
        } else {
            Err(ParseError::StyleMismatch)
        }
    }
}

} // verus!
