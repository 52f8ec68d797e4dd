//! Errors of the library.

use vstd::prelude::*;

verus! {

/// Why a text is no hexadecimal form of bytes.
#[derive(Clone, Copy, Debug, PartialEq, Eq, Structural)]
pub enum HexError {
    /// The byte `c` at `index` is no hexadecimal digit.
    InvalidHexCharacter { c: char, index: usize },
    /// The text has an odd number of bytes.
    OddLength,
    /// The text does not fill a container of fixed size.
    InvalidStringLength,
}

/// Why a text is no base64 form of bytes.
#[derive(Clone, Copy, Debug, PartialEq, Eq, Structural)]
pub enum Base64Error {
    /// The byte at this offset does not belong there.
    InvalidByte(usize, u8),
    /// No text of this length is a base64 form.
    InvalidLength,
    /// The last symbol, at this offset, has bits that no byte takes up.
    InvalidLastSymbol(usize, u8),
}

/// Why a text is no number of the right size.
#[derive(Clone, Copy, Debug, PartialEq, Eq, Structural)]
pub enum IntError {
    /// The text has no characters.
    Empty,
    /// A character is no digit, or a sign has no number behind it.
    InvalidDigit,
    /// The number is too large.
    PosOverflow,
    /// The number is too small.
    NegOverflow,
    /// Any other reason.
    Other,
}

/// An outside type: the error of reading or writing JSON.
#[verifier::external_type_specification]
#[verifier::external_body]
pub struct ExJsonError(serde_json::Error);

/// An error of the library.
#[derive(Debug)]
pub enum SdkError {
    /// Data that was loaded or handed over does not have the shape it should have.
    InvalidData(String),
    /// An argument has no meaning.
    InvalidArg(String),
    /// An operation that should succeed did not.
    InternalError(String),
    /// An address names no workchain, and there is no default one.
    DefaultWorkchainNotSet,
    /// A call could not be encoded or decoded by its ABI.
    AbiError(String),
    /// A text is not the JSON that was expected.
    SerdeJson(serde_json::Error),
    /// A text is no base64 form of bytes.
    Base64(Base64Error),
    /// A text is no hexadecimal form of bytes.
    Hex(HexError),
    /// A text is no number of the right size.
    ParseInt(IntError),
    /// Reading or writing cells, running the virtual machine or talking to a node failed.
    Other(String),
}

/// An error as contracts speak of it.
pub enum SdkErrorView {
    InvalidData(Seq<char>),
    InvalidArg(Seq<char>),
    InternalError(Seq<char>),
    DefaultWorkchainNotSet,
    AbiError(Seq<char>),
    SerdeJson(serde_json::Error),
    Base64(Base64Error),
    Hex(HexError),
    ParseInt(IntError),
    Other(Seq<char>),
}

impl View for SdkError {
    type V = SdkErrorView;

    open spec fn view(&self) -> SdkErrorView {
        match self {
            SdkError::InvalidData(text) => SdkErrorView::InvalidData(text@),
            SdkError::InvalidArg(text) => SdkErrorView::InvalidArg(text@),
            SdkError::InternalError(text) => SdkErrorView::InternalError(text@),
            SdkError::DefaultWorkchainNotSet => SdkErrorView::DefaultWorkchainNotSet,
            SdkError::AbiError(text) => SdkErrorView::AbiError(text@),
            SdkError::SerdeJson(error) => SdkErrorView::SerdeJson(*error),
            SdkError::Base64(error) => SdkErrorView::Base64(*error),
            SdkError::Hex(error) => SdkErrorView::Hex(*error),
            SdkError::ParseInt(error) => SdkErrorView::ParseInt(*error),
            SdkError::Other(text) => SdkErrorView::Other(text@),
        }
    }
}

/// The result of an operation of the library.
pub type SdkResult<T> = Result<T, SdkError>;

/// `result` is `expected`, seen through the views of its value or error.
pub open spec fn agrees<T: View>(
    result: Result<T, SdkError>,
    expected: Result<T::V, SdkErrorView>,
) -> bool {
    match result {
        Ok(value) => expected == Ok::<T::V, SdkErrorView>(value@),
        Err(error) => expected == Err::<T::V, SdkErrorView>(error@),
    }
}

/// What contracts see of a value that may be missing.
pub open spec fn optional_view<T: View>(value: Option<T>) -> Option<T::V> {
    match value {
        Some(value) => Some(value@),
        None => None,
    }
}

/// The results look the same: the same value or the same error.
pub open spec fn alike<T: View>(a: SdkResult<T>, b: SdkResult<T>) -> bool {
    match (a, b) {
        (Ok(a), Ok(b)) => a@ == b@,
        (Err(a), Err(b)) => a@ == b@,
        _ => false,
    }
}

/// The error of the kind `InvalidData` with the given text.
pub fn invalid_data(text: &str) -> (error: SdkError)
    ensures
        error@ == SdkErrorView::InvalidData(text@),
{
    SdkError::InvalidData(text.to_owned())
}

/// The error of the kind `InvalidArg` with the given text.
pub fn invalid_arg(text: &str) -> (error: SdkError)
    ensures
        error@ == SdkErrorView::InvalidArg(text@),
{
    SdkError::InvalidArg(text.to_owned())
}

} // verus!
