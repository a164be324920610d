//! Error kinds and the messages that a host binding shows for them.

use vstd::prelude::*;

verus! {

/// Failure of an arithmetic operation.
#[derive(Clone, Copy, Debug, PartialEq, Eq, Structural)]
pub enum ArithmeticError {
    /// The divisor was zero.
    DivisionByZero,
}

/// Failure while encoding or decoding a value.
#[derive(Clone, Debug, PartialEq, Eq)]
pub enum SerializationError {
    /// The buffer is too small for the encoding.
    NotEnoughSpace,
    /// The bytes do not encode a valid value.
    InvalidData,
    /// The flag bits of the encoding are not among the expected ones.
    UnexpectedFlags,
    /// The underlying reader or writer failed; the text is its message.
    IoFailure(String),
}

/// The kind of error that a host binding raises.
#[derive(Clone, Copy, Debug, PartialEq, Eq, Structural)]
pub enum HostErrorKind {
    /// A value was malformed.
    Value,
    /// Reading or writing failed.
    Io,
}

/// An error as a host binding reports it: a kind and a message.
#[derive(Clone, Debug, PartialEq, Eq)]
pub struct HostError {
    pub kind: HostErrorKind,
    pub message: String,
}

/// The text that precedes every message handed to the host.
pub open spec fn err_prefix() -> Seq<char> {
    "Err From Rust: "@
}

/// The message, before the prefix, of a serialization error.
pub open spec fn serialisation_error_text(e: SerializationError) -> Seq<char> {
    match e {
        SerializationError::NotEnoughSpace =>
            "not enough space has been allocated to serialise the object"@,
        SerializationError::InvalidData => "serialised data seems to be invalid"@,
        SerializationError::UnexpectedFlags =>
            "got an unexpected flag in serialised data, check if data is malformed"@,
        SerializationError::IoFailure(msg) => msg@,
    }
}

/// The kind under which a serialization error is reported.
pub open spec fn serialisation_error_kind(e: SerializationError) -> HostErrorKind {
    match e {
        SerializationError::IoFailure(_) => HostErrorKind::Io,
        _ => HostErrorKind::Value,
    }
}

/// `String::push_str`: appends the characters of `tail` to `s`.
#[verifier::external_body]
pub(crate) fn push_str(s: &mut String, tail: &str)
    ensures
        final(s)@ == old(s)@ + tail@,
{
    s.push_str(tail);
}

/// Puts the library's prefix in front of an error message.
pub fn wrap_err_string(err: String) -> (r: String)
    ensures
        r@ == err_prefix() + err@,
{
    let mut out = "Err From Rust: ".to_owned();
    push_str(&mut out, err.as_str());
    out
}

/// Turns a serialization error into the error that the host is shown.
pub fn serialisation_error_to_py_err(serialisation_error: SerializationError) -> (r: HostError)
    ensures
        r.kind == serialisation_error_kind(serialisation_error),
        r.message@ == err_prefix() + serialisation_error_text(serialisation_error),
{
    match serialisation_error {
        SerializationError::NotEnoughSpace => HostError {
            kind: HostErrorKind::Value,
            message: wrap_err_string(
                "not enough space has been allocated to serialise the object".to_owned(),
            ),
        },
        SerializationError::InvalidData => HostError {
            kind: HostErrorKind::Value,
            message: wrap_err_string("serialised data seems to be invalid".to_owned()),
        },
        SerializationError::UnexpectedFlags => HostError {
            kind: HostErrorKind::Value,
            message: wrap_err_string(
                "got an unexpected flag in serialised data, check if data is malformed".to_owned(),
            ),
        },
        SerializationError::IoFailure(msg) => HostError {
            kind: HostErrorKind::Io,
            message: wrap_err_string(msg),
        },
    }
}

} // verus!
