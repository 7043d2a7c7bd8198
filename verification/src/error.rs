//! What can go wrong between a request and the decoded telemetry.

use vstd::prelude::*;
use crate::fields::Field;

verus! {

/// The kinds of JSON value that the decoding asks for.
#[derive(Clone, Copy, Debug, PartialEq, Eq)]
pub enum Kind {
    Text,
    Integer,
    Number,
    Array,
    Object,
}

/// What is wrong with the JSON value that stands where a field was looked for.
#[derive(Clone, Debug, PartialEq, Eq)]
pub enum Fault {
    /// The payload holds no member of the field's name.
    Missing,
    /// The value is not of the kind that the field takes.
    Expected(Kind),
    /// The value is an integer that the field's type cannot hold.
    OutOfRange,
    /// A difficulty text with no word in it; the text is kept.
    EmptyDifficulty(String),
    /// A difficulty whose first word does not read as a number; the word is kept.
    InvalidNumber(String),
    /// A difficulty whose second word is none of the units; the word is kept.
    UnknownUnit(String),
    /// A difficulty that comes out below zero; its first word is kept.
    NegativeDifficulty(String),
}

/// A `Fault` with its texts as sequences of characters.
pub ghost enum FaultView {
    Missing,
    Expected(Kind),
    OutOfRange,
    EmptyDifficulty(Seq<char>),
    InvalidNumber(Seq<char>),
    UnknownUnit(Seq<char>),
    NegativeDifficulty(Seq<char>),
}

impl View for Fault {
    type V = FaultView;

    open spec fn view(&self) -> FaultView {
        match self {
            Fault::Missing => FaultView::Missing,
            Fault::Expected(kind) => FaultView::Expected(*kind),
            Fault::OutOfRange => FaultView::OutOfRange,
            Fault::EmptyDifficulty(text) => FaultView::EmptyDifficulty(text@),
            Fault::InvalidNumber(word) => FaultView::InvalidNumber(word@),
            Fault::UnknownUnit(word) => FaultView::UnknownUnit(word@),
            Fault::NegativeDifficulty(word) => FaultView::NegativeDifficulty(word@),
        }
    }
}

/// The parts of an entry of the rejection reasons.
#[derive(Clone, Copy, Debug, PartialEq, Eq)]
pub enum ReasonPart {
    /// The entry as a whole.
    Entry,
    /// Its member `message`.
    Message,
    /// Its member `count`.
    Count,
}

/// Why a payload was not decoded, and where in it the reason lies.
#[derive(Clone, Debug, PartialEq, Eq)]
pub enum DecodeError {
    /// The body is not JSON text; the message is that of the JSON reader.
    Syntax(String),
    /// The payload is not a JSON object.
    NotAnObject,
    /// A field is at fault.
    Field { field: Field, fault: Fault },
    /// An entry of the rejection reasons is at fault.
    Reason { index: usize, part: ReasonPart, fault: Fault },
}

/// A `DecodeError` with its texts as sequences of characters.
pub ghost enum DecodeErrorView {
    Syntax(Seq<char>),
    NotAnObject,
    Field { field: Field, fault: FaultView },
    Reason { index: nat, part: ReasonPart, fault: FaultView },
}

impl View for DecodeError {
    type V = DecodeErrorView;

    open spec fn view(&self) -> DecodeErrorView {
        match self {
            DecodeError::Syntax(message) => DecodeErrorView::Syntax(message@),
            DecodeError::NotAnObject => DecodeErrorView::NotAnObject,
            DecodeError::Field { field, fault } => DecodeErrorView::Field {
                field: *field,
                fault: fault@,
            },
            DecodeError::Reason { index, part, fault } => DecodeErrorView::Reason {
                index: *index as nat,
                part: *part,
                fault: fault@,
            },
        }
    }
}

/// Why a request for telemetry came to nothing.
#[derive(Debug)]
pub enum Error {
    /// The address of the endpoint cannot be formed from the address of the device.
    Url(url::ParseError),
    /// The transport failed before an answer was there; its own account of it is kept.
    Transport(String),
    /// The device answered with a status outside 200 to 299, which is kept.
    HttpStatus(u16),
    /// The device answered, and its answer cannot be decoded.
    Decode(DecodeError),
}

/// An `Error` with its texts as sequences of characters.
pub ghost enum ErrorView {
    Url(url::ParseError),
    Transport(Seq<char>),
    HttpStatus(u16),
    Decode(DecodeErrorView),
}

impl View for Error {
    type V = ErrorView;

    open spec fn view(&self) -> ErrorView {
        match self {
            Error::Url(error) => ErrorView::Url(*error),
            Error::Transport(account) => ErrorView::Transport(account@),
            Error::HttpStatus(status) => ErrorView::HttpStatus(*status),
            Error::Decode(error) => ErrorView::Decode(error@),
        }
    }
}

} // verus!
