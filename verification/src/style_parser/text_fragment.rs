use vstd::prelude::*;

verus! {

/// Font style that can be applied on the text.
///
/// Each variant corresponds to one recognized visual treatment in the
/// source markup. The set is closed: unrecognized markup is rejected,
/// never mapped to a default.
#[derive(Clone, Copy, PartialEq, Eq, Structural, Debug)]
pub enum FontStyle {
    DefaultFont,
    SmallText,
    RedFont,
    Initial,
    LargeFont,
    SmallRed,
    RedCross,
}

/// The mathematical value of a `TextFragment`: a style and the characters
/// of its text.
pub ghost struct FragView {
    pub style: FontStyle,
    pub text: Seq<char>,
}

/// Fragment of text with specific font style.
#[derive(Debug)]
pub struct TextFragment {
    font_style: FontStyle,
    text: String,
}

impl View for TextFragment {
    type V = FragView;

    closed spec fn view(&self) -> FragView {
        FragView { style: self.font_style, text: self.text@ }
    }
}

impl TextFragment {
    /// A fragment of plain text.
    pub fn new(text: String) -> (r: Self)
        ensures
            r@ == (FragView { style: FontStyle::DefaultFont, text: text@ }),
    {
        TextFragment { font_style: FontStyle::DefaultFont, text }
    }

    /// A fragment of text under the given style.
    pub fn new_with_style(font_style: FontStyle, text: String) -> (r: Self)
        ensures
            r@ == (FragView { style: font_style, text: text@ }),
    {
        TextFragment { font_style, text }
    }

    /// The fragment's style.
    pub fn font_style(&self) -> (r: &FontStyle)
        ensures
            *r == self@.style,
    {
        &self.font_style
    }

    /// The fragment's text.
    pub fn text(&self) -> (r: &str)
        ensures
            r@ == self@.text,
    {
        self.text.as_str()
    }

    /// A copy of this fragment.
    pub fn duplicate(&self) -> (r: Self)
        ensures
            r@ == self@,
    {
        TextFragment { font_style: self.font_style, text: self.text.clone() }
    }
}

} // verus!
