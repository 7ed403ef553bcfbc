use vstd::prelude::*;

verus! {

/// The broad kind of a parse failure: an element whose children do not have
/// the required count, kind or nesting; markup outside the closed set of
/// recognized shapes; or a structure that the document must contain but lacks.
#[derive(Clone, Copy, PartialEq, Eq, Structural, Debug)]
pub enum ErrorKind {
    StructuralMismatch,
    UnrecognizedMarkup,
    MissingStructure,
}

/// A parse failure, carrying the offending piece of markup where one exists.
#[derive(Debug)]
pub enum ParseError {
    /// A `div` whose `align` attribute is not `"right"`.
    UnexpectedDiv,
    /// An element with a name outside the recognized set.
    UnknownElement { name: String },
    /// A node that is neither an element nor a text node.
    UnexpectedNodeKind,
    /// A `font` element with a color/size combination outside the recognized set.
    FontAttributes { color: Option<String>, size: Option<String> },
    /// An element expected to have exactly one text-node child.
    ExpectedSingleChild,
    /// The sole child is not a text node.
    ExpectedTextNode,
    /// An element expected to have exactly one child element of this name.
    ExpectedElement { name: String },
    /// A `span` whose `style` attribute is not the recognized signature.
    SpanStyle { style: Option<String> },
    /// A table row without a first cell.
    MissingLeftColumn,
    /// A table row without a second cell.
    MissingRightColumn,
    /// Two fragments paired across the columns carry different styles.
    StyleMismatch,
    /// The page has no day-name text.
    MissingDayName,
    /// The page has no part-name text.
    MissingPartName,
}

/// The mathematical value of a `ParseError`: the same variants over
/// character sequences.
pub ghost enum ErrModel {
    UnexpectedDiv,
    UnknownElement { name: Seq<char> },
    UnexpectedNodeKind,
    FontAttributes { color: Option<Seq<char>>, size: Option<Seq<char>> },
    ExpectedSingleChild,
    ExpectedTextNode,
    ExpectedElement { name: Seq<char> },
    SpanStyle { style: Option<Seq<char>> },
    MissingLeftColumn,
    MissingRightColumn,
    StyleMismatch,
    MissingDayName,
    MissingPartName,
}

/// The view of an optional string.
pub open spec fn view_opt(o: Option<String>) -> Option<Seq<char>> {
    match o {
        Some(s) => Some(s@),
        None => None,
    }
}

impl View for ParseError {
    type V = ErrModel;

    open spec fn view(&self) -> ErrModel {
        match self {
            ParseError::UnexpectedDiv => ErrModel::UnexpectedDiv,
            ParseError::UnknownElement { name } => (ErrModel::UnknownElement { name: name@ }),
            ParseError::UnexpectedNodeKind => ErrModel::UnexpectedNodeKind,
            ParseError::FontAttributes { color, size } => (ErrModel::FontAttributes {
                color: view_opt(*color),
                size: view_opt(*size),
            }),
            ParseError::ExpectedSingleChild => ErrModel::ExpectedSingleChild,
            ParseError::ExpectedTextNode => ErrModel::ExpectedTextNode,
            ParseError::ExpectedElement { name } => (ErrModel::ExpectedElement { name: name@ }),
            ParseError::SpanStyle { style } => (ErrModel::SpanStyle { style: view_opt(*style) }),
            ParseError::MissingLeftColumn => ErrModel::MissingLeftColumn,
            ParseError::MissingRightColumn => ErrModel::MissingRightColumn,
            ParseError::StyleMismatch => ErrModel::StyleMismatch,
            ParseError::MissingDayName => ErrModel::MissingDayName,
            ParseError::MissingPartName => ErrModel::MissingPartName,
        }
    }
}

/// The kind of each error value.
pub open spec fn spec_kind(e: ErrModel) -> ErrorKind {
    match e {
        ErrModel::UnexpectedDiv => ErrorKind::UnrecognizedMarkup,
        ErrModel::UnknownElement { .. } => ErrorKind::UnrecognizedMarkup,
        ErrModel::UnexpectedNodeKind => ErrorKind::UnrecognizedMarkup,
        ErrModel::FontAttributes { .. } => ErrorKind::UnrecognizedMarkup,
        ErrModel::SpanStyle { .. } => ErrorKind::UnrecognizedMarkup,
        ErrModel::ExpectedSingleChild => ErrorKind::StructuralMismatch,
        ErrModel::ExpectedTextNode => ErrorKind::StructuralMismatch,
        ErrModel::ExpectedElement { .. } => ErrorKind::StructuralMismatch,
        ErrModel::StyleMismatch => ErrorKind::StructuralMismatch,
        ErrModel::MissingLeftColumn => ErrorKind::MissingStructure,
        ErrModel::MissingRightColumn => ErrorKind::MissingStructure,
        ErrModel::MissingDayName => ErrorKind::MissingStructure,
        ErrModel::MissingPartName => ErrorKind::MissingStructure,
    }
}

/// The human-readable phrase naming the violated expectation.
pub open spec fn spec_describe(e: ErrModel) -> Seq<char> {
    match e {
        ErrModel::UnexpectedDiv => "unexpected div element"@,
        ErrModel::UnknownElement { .. } => "unknown element"@,
        ErrModel::UnexpectedNodeKind => "unexpected node kind"@,
        ErrModel::FontAttributes { .. } => "unexpected size/color for font"@,
        ErrModel::ExpectedSingleChild => "expected exactly one child text node"@,
        ErrModel::ExpectedTextNode => "value is not a text node"@,
        ErrModel::ExpectedElement { .. } => "expected exactly one child element"@,
        ErrModel::SpanStyle { .. } => "unexpected style for span"@,
        ErrModel::MissingLeftColumn => "left column not found"@,
        ErrModel::MissingRightColumn => "right column not found"@,
        ErrModel::StyleMismatch => "fragments differ in style"@,
        ErrModel::MissingDayName => "no day name found"@,
        ErrModel::MissingPartName => "no part name found"@,
    }
}

impl ParseError {
    /// The kind of this failure.
    pub fn kind(&self) -> (r: ErrorKind)
        ensures
            r == spec_kind(self@),
    {
        match self {
            ParseError::UnexpectedDiv => ErrorKind::UnrecognizedMarkup,
            ParseError::UnknownElement { .. } => ErrorKind::UnrecognizedMarkup,
            ParseError::UnexpectedNodeKind => ErrorKind::UnrecognizedMarkup,
            ParseError::FontAttributes { .. } => ErrorKind::UnrecognizedMarkup,
            ParseError::SpanStyle { .. } => ErrorKind::UnrecognizedMarkup,
            ParseError::ExpectedSingleChild => ErrorKind::StructuralMismatch,
            ParseError::ExpectedTextNode => ErrorKind::StructuralMismatch,
            ParseError::ExpectedElement { .. } => ErrorKind::StructuralMismatch,
            ParseError::StyleMismatch => ErrorKind::StructuralMismatch,
            ParseError::MissingLeftColumn => ErrorKind::MissingStructure,
            ParseError::MissingRightColumn => ErrorKind::MissingStructure,
            ParseError::MissingDayName => ErrorKind::MissingStructure,
            ParseError::MissingPartName => ErrorKind::MissingStructure,
        }
    }

    /// A short description of the violated expectation.
    pub fn describe(&self) -> (r: &'static str)
        ensures
            r@ == spec_describe(self@),
    {
        match self {
            ParseError::UnexpectedDiv => "unexpected div element",
            ParseError::UnknownElement { .. } => "unknown element",
            ParseError::UnexpectedNodeKind => "unexpected node kind",
            ParseError::FontAttributes { .. } => "unexpected size/color for font",
            ParseError::ExpectedSingleChild => "expected exactly one child text node",
            ParseError::ExpectedTextNode => "value is not a text node",
            ParseError::ExpectedElement { .. } => "expected exactly one child element",
            ParseError::SpanStyle { .. } => "unexpected style for span",
            ParseError::MissingLeftColumn => "left column not found",
            ParseError::MissingRightColumn => "right column not found",
            ParseError::StyleMismatch => "fragments differ in style",
            ParseError::MissingDayName => "no day name found",
            ParseError::MissingPartName => "no part name found",
        }
    }
}

} // verus!
