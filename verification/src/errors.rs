//! The ways in which an operation of this library can fail.

use crate::cell_map::Cell;
use vstd::prelude::*;

verus! {

/// Which name of a dotted path could not be followed, and why.
#[derive(Clone, Copy, Debug, PartialEq, Eq, Structural)]
pub enum PathError {
    /// The path has an empty name in it: it is empty, starts or ends with a
    /// dot, or has two dots in a row.
    EmptySegment,
    /// A name was to be looked up in a value that is not an object.
    NotAnObject,
    /// The object has no member of that name.
    MissingKey,
}

/// Why an operation on the module was refused. Every failure is a value of
/// this type; none of them ends the program.
#[derive(Clone, Copy, Debug, PartialEq, Eq, Structural)]
pub enum FfiError {
    /// The code does not stand for an HTTP method.
    InvalidRequestType(Cell),
    /// The text is not an absolute URL.
    InvalidUri,
    /// No request body is registered under the handle.
    InvalidBodyHandle(Cell),
    /// No option set is registered under the handle.
    InvalidOptionsHandle(Cell),
    /// No outstanding request is registered under the handle.
    InvalidCancellation(Cell),
    /// No JSON document is registered under the handle.
    InvalidJsonHandle(Cell),
    /// The text cannot be the name of an HTTP header.
    InvalidHeaderName,
    /// The text cannot be the value of an HTTP header.
    InvalidHeaderValue,
    /// The call is only meaningful while a callback runs.
    NoActiveResponse,
    /// The response at hand is a success, so it has no error text.
    NoErrorForResponse,
    /// The request at hand did not end in a response.
    ResponseFailed,
    /// The request at hand was cancelled.
    RequestCancelled,
    /// The response body is not UTF-8 text.
    BodyNotUtf8,
    /// An index or size below zero.
    NegativeIndex(Cell),
    /// An index at or beyond the end of the array.
    IndexOutOfRange(Cell),
    /// The JSON value is not a string.
    NotString,
    /// The JSON value is not a number.
    NotNumber,
    /// The JSON value is not a boolean.
    NotBool,
    /// The JSON value is not an array.
    NotArray,
    /// The JSON number is not an integer that fits 64 bits with a sign.
    NumberNotInteger,
    /// A member of a JSON object could not be reached.
    Path(PathError),
}

/// Why the start-up settings were refused.
#[derive(Clone, Copy, Debug, PartialEq, Eq, Structural)]
pub enum ConfigError {
    /// The settings have no section for the queue.
    MissingSection,
    /// A setting is not there.
    MissingKey(ConfigKey),
    /// A setting is there, but is not a number that fits.
    Unparseable(ConfigKey),
}

/// The settings that must be given at start-up.
#[derive(Clone, Copy, Debug, PartialEq, Eq, Structural)]
pub enum ConfigKey {
    WorkerThreads,
    CallbacksPerFrame,
    MicrosecondsDelayBetweenAttempts,
}

} // verus!
