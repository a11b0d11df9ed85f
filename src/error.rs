//! Errors of the decoder and their mathematical model.
use vstd::prelude::*;

verus! {

/// Why an integer column could not be read.
#[derive(Debug, Clone, Copy, PartialEq, Eq)]
pub enum IntErrorKind {
    /// Nothing but whitespace where a value is required.
    Empty,
    /// A character other than an ASCII digit (after an optional leading `+`).
    InvalidDigit,
    /// The value is larger than the column's type can hold.
    PosOverflow,
    /// Zero where only positive values are allowed.
    Zero,
}

/// Why a score column could not be read.
#[derive(Debug, Clone, Copy, PartialEq, Eq)]
pub enum FloatErrorKind {
    /// Not a decimal number of tenths.
    Invalid,
}

/// An error in the TRF decoder.
///
/// Most of them do not stop the decoder: they are stored in the decoded
/// record, in place of the field that failed.
#[derive(Debug, Clone, PartialEq, Eq)]
pub enum TRFError {
    /// The gender is neither "m" nor "w" nor blank.
    InvalidGenderError(String),
    /// The title is not one of the eight FIDE title codes.
    InvalidTitleError(String),
    /// The name is not of the form "Lastname, Firstname".
    InvalidPlayerNameError(String),
    /// The birth date is not of the form YYYY/MM/DD.
    InvalidDateError(String),
    /// The round color is neither "w" nor "b" nor "-" nor blank.
    InvalidColorError(String),
    /// The round result is not one of the result codes.
    InvalidRoundResultError(String),
    /// A round block is shorter than its eight columns.
    PlayerRoundSectionTooShort(String),
    /// An integer column could not be read.
    ParseIntError(IntErrorKind),
    /// A score column could not be read.
    ParseFloatError(FloatErrorKind),
    /// A line ends before a column that must be there.
    UnexpectedEndOfString,
}

/// What a [`TRFError`] says, with its text as a character sequence.
pub enum ErrorModel {
    InvalidGender(Seq<char>),
    InvalidTitle(Seq<char>),
    InvalidPlayerName(Seq<char>),
    InvalidDate(Seq<char>),
    InvalidColor(Seq<char>),
    InvalidRoundResult(Seq<char>),
    RoundSectionTooShort(Seq<char>),
    IntParse(IntErrorKind),
    FloatParse(FloatErrorKind),
    UnexpectedEnd,
}

impl View for TRFError {
    type V = ErrorModel;

    open spec fn view(&self) -> ErrorModel {
        match self {
            TRFError::InvalidGenderError(s) => ErrorModel::InvalidGender(s@),
            TRFError::InvalidTitleError(s) => ErrorModel::InvalidTitle(s@),
            TRFError::InvalidPlayerNameError(s) => ErrorModel::InvalidPlayerName(s@),
            TRFError::InvalidDateError(s) => ErrorModel::InvalidDate(s@),
            TRFError::InvalidColorError(s) => ErrorModel::InvalidColor(s@),
            TRFError::InvalidRoundResultError(s) => ErrorModel::InvalidRoundResult(s@),
            TRFError::PlayerRoundSectionTooShort(s) => ErrorModel::RoundSectionTooShort(s@),
            TRFError::ParseIntError(k) => ErrorModel::IntParse(*k),
            TRFError::ParseFloatError(k) => ErrorModel::FloatParse(*k),
            TRFError::UnexpectedEndOfString => ErrorModel::UnexpectedEnd,
        }
    }
}

/// The model of a decode outcome: the value's view, or the error's.
pub open spec fn result_view<T: View>(r: Result<T, TRFError>) -> Result<T::V, ErrorModel> {
    match r {
        Ok(v) => Ok(v@),
        Err(e) => Err(e@),
    }
}

/// The model of a field outcome: blank (`Ok(None)`), a value, or an error.
pub open spec fn field_view<T: View>(r: Result<Option<T>, TRFError>) -> Result<
    Option<T::V>,
    ErrorModel,
> {
    match r {
        Ok(Some(v)) => Ok(Some(v@)),
        Ok(None) => Ok(None),
        Err(e) => Err(e@),
    }
}

} // verus!

verus! {

/// [`result_view`] through references, as getters hand a stored outcome out.
pub open spec fn ref_result_view<T: View>(r: Result<&T, &TRFError>) -> Result<T::V, ErrorModel> {
    match r {
        Ok(v) => Ok(v@),
        Err(e) => Err(e@),
    }
}

/// [`field_view`] through references, as getters hand a stored field out.
pub open spec fn ref_field_view<T: View>(r: Result<&Option<T>, &TRFError>) -> Result<
    Option<T::V>,
    ErrorModel,
> {
    match r {
        Ok(Some(v)) => Ok(Some(v@)),
        Ok(None) => Ok(None),
        Err(e) => Err(e@),
    }
}

} // verus!
