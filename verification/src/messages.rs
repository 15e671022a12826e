//! The texts that errors are reported with.

use crate::errors::{ConfigError, ConfigKey, FfiError, PathError};
use crate::text::{around_number, decimal};
use vstd::prelude::*;

verus! {

impl PathError {
    /// The text that the error is reported with.
    pub open spec fn message_text(self) -> Seq<char> {
        match self {
            PathError::EmptySegment => "Double/Empty separator in the name"@,
            PathError::NotAnObject => "Can't index json by the name, because json is not object"@,
            PathError::MissingKey => "Can't index json by the name, because json doesn't contain it"@,
        }
    }

    pub fn message(&self) -> (text: String)
        ensures
            text@ == self.message_text(),
    {
        match self {
            PathError::EmptySegment => "Double/Empty separator in the name".to_owned(),
            PathError::NotAnObject => "Can't index json by the name, because json is not object".to_owned(),
            PathError::MissingKey => "Can't index json by the name, because json doesn't contain it".to_owned(),
        }
    }
}

impl FfiError {
    /// The text that the error is reported with.
    pub open spec fn message_text(self) -> Seq<char> {
        match self {
            FfiError::InvalidRequestType(code) => "Invalid request type "@ + decimal(code as int)
                + ""@,
            FfiError::InvalidUri => "URI parsing error"@,
            FfiError::InvalidBodyHandle(handle) => "Invalid body handle "@ + decimal(handle as int)
                + ""@,
            FfiError::InvalidOptionsHandle(handle) => "Invalid options handle "@ + decimal(
                handle as int,
            ) + ""@,
            FfiError::InvalidCancellation(handle) => "Cancellation with the id "@ + decimal(
                handle as int,
            ) + " doesn't exist."@,
            FfiError::InvalidJsonHandle(handle) => "Invalid JSON value handle "@ + decimal(
                handle as int,
            ) + ""@,
            FfiError::InvalidHeaderName => "Invalid header name"@,
            FfiError::InvalidHeaderValue => "Invalid header value"@,
            FfiError::NoActiveResponse => "No active response at this time"@,
            FfiError::NoErrorForResponse => "No error for this response."@,
            FfiError::ResponseFailed => "Error/Cancellation/Timeout occurred for this response."@,
            FfiError::RequestCancelled => "Request was cancelled"@,
            FfiError::BodyNotUtf8 => "Unable to parse UTF-8"@,
            FfiError::NegativeIndex(index) => "Index/Size "@ + decimal(index as int)
                + " should be greater or equal to zero."@,
            FfiError::IndexOutOfRange(index) => "Index "@ + decimal(index as int)
                + " is out of range."@,
            FfiError::NotString => "JSON Handle is not string."@,
            FfiError::NotNumber => "JSON Handle is not number."@,
            FfiError::NotBool => "JSON Handle is not bool."@,
            FfiError::NotArray => "JSON Handle is not array."@,
            FfiError::NumberNotInteger => "Number is not integer"@,
            FfiError::Path(error) => error.message_text(),
        }
    }

    pub fn message(&self) -> (text: String)
        ensures
            text@ == self.message_text(),
    {
        match self {
            FfiError::InvalidRequestType(code) => around_number("Invalid request type ", *code, ""),
            FfiError::InvalidUri => "URI parsing error".to_owned(),
            FfiError::InvalidBodyHandle(handle) => around_number("Invalid body handle ", *handle, ""),
            FfiError::InvalidOptionsHandle(handle) => around_number(
                "Invalid options handle ",
                *handle,
                "",
            ),
            FfiError::InvalidCancellation(handle) => around_number(
                "Cancellation with the id ",
                *handle,
                " doesn't exist.",
            ),
            FfiError::InvalidJsonHandle(handle) => around_number(
                "Invalid JSON value handle ",
                *handle,
                "",
            ),
            FfiError::InvalidHeaderName => "Invalid header name".to_owned(),
            FfiError::InvalidHeaderValue => "Invalid header value".to_owned(),
            FfiError::NoActiveResponse => "No active response at this time".to_owned(),
            FfiError::NoErrorForResponse => "No error for this response.".to_owned(),
            FfiError::ResponseFailed => "Error/Cancellation/Timeout occurred for this response.".to_owned(),
            FfiError::RequestCancelled => "Request was cancelled".to_owned(),
            FfiError::BodyNotUtf8 => "Unable to parse UTF-8".to_owned(),
            FfiError::NegativeIndex(index) => around_number(
                "Index/Size ",
                *index,
                " should be greater or equal to zero.",
            ),
            FfiError::IndexOutOfRange(index) => around_number("Index ", *index, " is out of range."),
            FfiError::NotString => "JSON Handle is not string.".to_owned(),
            FfiError::NotNumber => "JSON Handle is not number.".to_owned(),
            FfiError::NotBool => "JSON Handle is not bool.".to_owned(),
            FfiError::NotArray => "JSON Handle is not array.".to_owned(),
            FfiError::NumberNotInteger => "Number is not integer".to_owned(),
            FfiError::Path(error) => error.message(),
        }
    }
}

impl ConfigKey {
    /// The name of the setting in the settings file.
    pub open spec fn name_text(self) -> Seq<char> {
        match self {
            ConfigKey::WorkerThreads => "worker-threads"@,
            ConfigKey::CallbacksPerFrame => "callbacks-per-frame"@,
            ConfigKey::MicrosecondsDelayBetweenAttempts => "microseconds-delay-between-attempts"@,
        }
    }

    pub fn name(&self) -> (text: &'static str)
        ensures
            text@ == self.name_text(),
    {
        match self {
            ConfigKey::WorkerThreads => "worker-threads",
            ConfigKey::CallbacksPerFrame => "callbacks-per-frame",
            ConfigKey::MicrosecondsDelayBetweenAttempts => "microseconds-delay-between-attempts",
        }
    }
}

impl ConfigError {
    /// The text that the error is reported with.
    pub open spec fn message_text(self) -> Seq<char> {
        match self {
            ConfigError::MissingSection => "Error: Missing [queue] section in the grip.ini config"@,
            ConfigError::MissingKey(key) => "Error: Missing key in the [queue] section of the grip.ini config: "@
                + key.name_text(),
            ConfigError::Unparseable(key) => "Error: Not a number in the [queue] section of the grip.ini config: "@
                + key.name_text(),
        }
    }

    pub fn message(&self) -> (text: String)
        ensures
            text@ == self.message_text(),
    {
        match self {
            ConfigError::MissingSection => "Error: Missing [queue] section in the grip.ini config".to_owned(),
            ConfigError::MissingKey(key) => {
                let mut text = "Error: Missing key in the [queue] section of the grip.ini config: ".to_owned();
                text.append(key.name());
                text
            },
            ConfigError::Unparseable(key) => {
                let mut text = "Error: Not a number in the [queue] section of the grip.ini config: ".to_owned();
                text.append(key.name());
                text
            },
        }
    }
}

} // verus!
