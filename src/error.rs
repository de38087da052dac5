use vstd::prelude::*;

verus! {

/// Why a text could not be turned into a value.
///
/// Every payload is display text (the rejected input and, for range errors,
/// the bounds of the target type), never a number.
#[derive(Debug, Clone, PartialEq, Eq)]
pub enum Error {
    InvalidValue { value: String },
    EmptyValue,
    TooBig { value: String, min: String, max: String },
    TooSmall { value: String, min: String, max: String },
}

/// The mathematical content of an [`Error`]: each text as a sequence of characters.
pub enum ErrorView {
    InvalidValue { value: Seq<char> },
    EmptyValue,
    TooBig { value: Seq<char>, min: Seq<char>, max: Seq<char> },
    TooSmall { value: Seq<char>, min: Seq<char>, max: Seq<char> },
}

impl View for Error {
    type V = ErrorView;

    open spec fn view(&self) -> ErrorView {
        match self {
            Error::InvalidValue { value } => ErrorView::InvalidValue { value: value@ },
            Error::EmptyValue => ErrorView::EmptyValue,
            Error::TooBig { value, min, max } => ErrorView::TooBig {
                value: value@,
                min: min@,
                max: max@,
            },
            Error::TooSmall { value, min, max } => ErrorView::TooSmall {
                value: value@,
                min: min@,
                max: max@,
            },
        }
    }
}

/// The way a decimal integer text failed to parse.
#[derive(Debug, Clone, Copy, PartialEq, Eq, Structural)]
pub enum IntErrorKind {
    /// The text is empty.
    Empty,
    /// A character is not a digit, or a sign stands alone.
    InvalidDigit,
    /// The number is above the largest value of the type.
    PosOverflow,
    /// The number is below the smallest value of the type.
    NegOverflow,
    /// The number is zero where the type excludes zero.
    Zero,
}

/// A failed integer parse.
#[derive(Debug, Clone, Copy, PartialEq, Eq, Structural)]
pub struct ParseIntError {
    pub kind: IntErrorKind,
}

impl ParseIntError {
    pub fn kind(&self) -> (r: IntErrorKind)
        ensures
            r == self.kind,
    {
        self.kind
    }
}

/// What [`Error::from_parse_int_error`] makes of a failure of the given kind.
pub open spec fn int_error_view(
    kind: IntErrorKind,
    value: Seq<char>,
    min: Seq<char>,
    max: Seq<char>,
) -> ErrorView {
    match kind {
        IntErrorKind::Empty => ErrorView::EmptyValue,
        IntErrorKind::InvalidDigit => ErrorView::InvalidValue { value },
        IntErrorKind::PosOverflow => ErrorView::TooBig { value, min, max },
        IntErrorKind::NegOverflow => ErrorView::TooSmall { value, min, max },
        IntErrorKind::Zero => ErrorView::InvalidValue { value },
    }
}

impl Error {
    pub fn invalid_value(value: &str) -> (r: Self)
        ensures
            r@ == (ErrorView::InvalidValue { value: value@ }),
    {
        Error::InvalidValue { value: value.to_owned() }
    }

    pub fn too_large(value: &str, min: &str, max: &str) -> (r: Self)
        ensures
            r@ == (ErrorView::TooBig { value: value@, min: min@, max: max@ }),
    {
        Error::TooBig { value: value.to_owned(), min: min.to_owned(), max: max.to_owned() }
    }

    pub fn too_small(value: &str, min: &str, max: &str) -> (r: Self)
        ensures
            r@ == (ErrorView::TooSmall { value: value@, min: min@, max: max@ }),
    {
        Error::TooSmall { value: value.to_owned(), min: min.to_owned(), max: max.to_owned() }
    }

    /// Maps an integer parse failure into the error taxonomy: an empty text is
    /// `EmptyValue`, a bad digit or a forbidden zero is `InvalidValue`, and an
    /// overflow either way is `TooBig` or `TooSmall` with the type's bounds.
    pub fn from_parse_int_error(e: ParseIntError, value: &str, min: &str, max: &str) -> (r: Self)
        ensures
            r@ == int_error_view(e.kind, value@, min@, max@),
    {
        match e.kind() {
            IntErrorKind::Empty => Error::EmptyValue,
            IntErrorKind::InvalidDigit => Error::invalid_value(value),
            IntErrorKind::PosOverflow => Error::too_large(value, min, max),
            IntErrorKind::NegOverflow => Error::too_small(value, min, max),
            IntErrorKind::Zero => Error::invalid_value(value),
        }
    }
}

} // verus!
