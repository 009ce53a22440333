//! Why a payload is refused.

use vstd::prelude::*;

verus! {

/// Why a text does not decode into a user record.
#[derive(Debug)]
pub enum JsonError {
    /// The text is not JSON; the parser's message says where and why.
    Syntax(String),
    /// The text is JSON, but no object.
    NotAnObject,
    /// The object lacks this member, which a record must have.
    MissingField(&'static str),
    /// The object has this member, but not of the kind that the record takes.
    InvalidType(&'static str),
}

/// A `JsonError` without the parser's message.
pub enum JsonFault {
    Syntax,
    NotAnObject,
    MissingField(Seq<char>),
    InvalidType(Seq<char>),
}

impl View for JsonError {
    type V = JsonFault;

    open spec fn view(&self) -> JsonFault {
        match *self {
            JsonError::Syntax(_) => JsonFault::Syntax,
            JsonError::NotAnObject => JsonFault::NotAnObject,
            JsonError::MissingField(name) => JsonFault::MissingField(name@),
            JsonError::InvalidType(name) => JsonFault::InvalidType(name@),
        }
    }
}

/// Why a payload is refused. Each of these ends the validation: the payload
/// is to be rejected, and asking again with the same input changes nothing.
#[derive(Debug)]
pub enum Error {
    /// The signature that the payload claims is not the one computed for it.
    InvalidHash,
    /// The payload lacks this field, which it must have.
    MissingField(&'static str),
    /// This field of the payload does not decode into a record.
    InvalidJson(&'static str, JsonError),
    /// This field of the payload is not a number.
    InvalidNumericField(&'static str),
}

/// An `Error` with its names as sequences of characters.
pub enum Failure {
    InvalidHash,
    MissingField(Seq<char>),
    InvalidJson(Seq<char>, JsonFault),
    InvalidNumericField(Seq<char>),
}

impl View for Error {
    type V = Failure;

    open spec fn view(&self) -> Failure {
        match *self {
            Error::InvalidHash => Failure::InvalidHash,
            Error::MissingField(name) => Failure::MissingField(name@),
            Error::InvalidJson(name, cause) => Failure::InvalidJson(name@, cause@),
            Error::InvalidNumericField(name) => Failure::InvalidNumericField(name@),
        }
    }
}

} // verus!
