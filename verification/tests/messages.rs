use grip::errors::{ConfigError, ConfigKey, FfiError, PathError};
use grip::text::{append_decimal, decimal_text};

#[test]
fn decimal_text_of_numbers() {
    assert_eq!(decimal_text(0), "0");
    assert_eq!(decimal_text(7), "7");
    assert_eq!(decimal_text(10), "10");
    assert_eq!(decimal_text(1234567890), "1234567890");
    assert_eq!(decimal_text(-1), "-1");
    assert_eq!(decimal_text(-120), "-120");
    assert_eq!(decimal_text(isize::MAX), isize::MAX.to_string());
    assert_eq!(decimal_text(isize::MIN), isize::MIN.to_string());
}

#[test]
fn append_decimal_keeps_what_is_there() {
    let mut text = String::from("id=");
    append_decimal(&mut text, -42);
    assert_eq!(text, "id=-42");
}

#[test]
fn messages_of_errors() {
    assert_eq!(FfiError::InvalidRequestType(9).message(), "Invalid request type 9");
    assert_eq!(FfiError::InvalidUri.message(), "URI parsing error");
    assert_eq!(FfiError::InvalidBodyHandle(-3).message(), "Invalid body handle -3");
    assert_eq!(FfiError::InvalidOptionsHandle(4).message(), "Invalid options handle 4");
    assert_eq!(
        FfiError::InvalidCancellation(12).message(),
        "Cancellation with the id 12 doesn't exist."
    );
    assert_eq!(FfiError::InvalidJsonHandle(5).message(), "Invalid JSON value handle 5");
    assert_eq!(FfiError::InvalidHeaderName.message(), "Invalid header name");
    assert_eq!(FfiError::InvalidHeaderValue.message(), "Invalid header value");
    assert_eq!(FfiError::NoActiveResponse.message(), "No active response at this time");
    assert_eq!(FfiError::NoErrorForResponse.message(), "No error for this response.");
    assert_eq!(
        FfiError::ResponseFailed.message(),
        "Error/Cancellation/Timeout occurred for this response."
    );
    assert_eq!(FfiError::RequestCancelled.message(), "Request was cancelled");
    assert_eq!(FfiError::BodyNotUtf8.message(), "Unable to parse UTF-8");
    assert_eq!(
        FfiError::NegativeIndex(-1).message(),
        "Index/Size -1 should be greater or equal to zero."
    );
    assert_eq!(FfiError::IndexOutOfRange(3).message(), "Index 3 is out of range.");
    assert_eq!(FfiError::NotString.message(), "JSON Handle is not string.");
    assert_eq!(FfiError::NotNumber.message(), "JSON Handle is not number.");
    assert_eq!(FfiError::NotBool.message(), "JSON Handle is not bool.");
    assert_eq!(FfiError::NotArray.message(), "JSON Handle is not array.");
    assert_eq!(FfiError::NumberNotInteger.message(), "Number is not integer");
    assert_eq!(
        FfiError::Path(PathError::EmptySegment).message(),
        "Double/Empty separator in the name"
    );
    assert_eq!(
        FfiError::Path(PathError::NotAnObject).message(),
        "Can't index json by the name, because json is not object"
    );
    assert_eq!(
        PathError::MissingKey.message(),
        "Can't index json by the name, because json doesn't contain it"
    );
}

#[test]
fn messages_of_config_errors() {
    assert_eq!(
        ConfigError::MissingSection.message(),
        "Error: Missing [queue] section in the grip.ini config"
    );
    assert_eq!(
        ConfigError::MissingKey(ConfigKey::CallbacksPerFrame).message(),
        "Error: Missing key in the [queue] section of the grip.ini config: callbacks-per-frame"
    );
    assert_eq!(
        ConfigError::Unparseable(ConfigKey::MicrosecondsDelayBetweenAttempts).message(),
        "Error: Not a number in the [queue] section of the grip.ini config: microseconds-delay-between-attempts"
    );
    assert_eq!(ConfigKey::WorkerThreads.name(), "worker-threads");
}
