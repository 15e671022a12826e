use grip::config::Config;
use grip::text::parse_setting;
use grip::errors::{ConfigError, ConfigKey};

#[test]
fn settings_are_decimal_numbers() {
    assert_eq!(parse_setting("0"), Some(0));
    assert_eq!(parse_setting("7"), Some(7));
    assert_eq!(parse_setting("0042"), Some(42));
    assert_eq!(parse_setting("+15"), Some(15));
    assert_eq!(parse_setting("1000000"), Some(1_000_000));
    assert_eq!(parse_setting(&usize::MAX.to_string()), Some(usize::MAX));
}

#[test]
fn settings_that_are_no_numbers_are_refused() {
    assert_eq!(parse_setting(""), None);
    assert_eq!(parse_setting("+"), None);
    assert_eq!(parse_setting("-1"), None);
    assert_eq!(parse_setting("++1"), None);
    assert_eq!(parse_setting("1+"), None);
    assert_eq!(parse_setting(" 1"), None);
    assert_eq!(parse_setting("1 "), None);
    assert_eq!(parse_setting("12a"), None);
    assert_eq!(parse_setting("1.5"), None);
    assert_eq!(parse_setting("٣"), None);
    assert_eq!(parse_setting(&format!("{}0", usize::MAX)), None);
    assert_eq!(parse_setting("99999999999999999999999999x"), None);
    let one_more = format!("{}", usize::MAX as u128 + 1);
    assert_eq!(parse_setting(&one_more), None);
}

#[test]
fn parse_setting_agrees_with_the_standard_parser() {
    for text in ["0", "1", "+1", "-0", "007", "18446744073709551615", "18446744073709551616", "", "+", "a", "1_000"] {
        assert_eq!(parse_setting(text), text.parse::<usize>().ok(), "{}", text);
    }
}

#[test]
fn all_three_settings_are_required() {
    assert_eq!(
        Config::from_settings(true, Some("4"), Some("10"), Some("250")),
        Ok(Config { worker_threads: 4, callbacks_per_frame: 10, microseconds_delay_between_attempts: 250 })
    );
    assert_eq!(
        Config::from_settings(false, Some("4"), Some("10"), Some("250")),
        Err(ConfigError::MissingSection)
    );
    assert_eq!(
        Config::from_settings(true, None, Some("10"), Some("250")),
        Err(ConfigError::MissingKey(ConfigKey::WorkerThreads))
    );
    assert_eq!(
        Config::from_settings(true, Some("x"), None, None),
        Err(ConfigError::Unparseable(ConfigKey::WorkerThreads))
    );
    assert_eq!(
        Config::from_settings(true, Some("4"), None, Some("250")),
        Err(ConfigError::MissingKey(ConfigKey::CallbacksPerFrame))
    );
    assert_eq!(
        Config::from_settings(true, Some("4"), Some("ten"), Some("250")),
        Err(ConfigError::Unparseable(ConfigKey::CallbacksPerFrame))
    );
    assert_eq!(
        Config::from_settings(true, Some("4"), Some("10"), None),
        Err(ConfigError::MissingKey(ConfigKey::MicrosecondsDelayBetweenAttempts))
    );
    assert_eq!(
        Config::from_settings(true, Some("4"), Some("10"), Some("-5")),
        Err(ConfigError::Unparseable(ConfigKey::MicrosecondsDelayBetweenAttempts))
    );
}
