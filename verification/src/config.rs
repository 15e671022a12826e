//! The settings that the module is started with.

use crate::errors::{ConfigError, ConfigKey};
use crate::text::{parse_setting, setting_value};
use vstd::prelude::*;

verus! {

/// The start-up settings. All three must be given.
#[derive(Clone, Copy, Debug, PartialEq, Eq, Structural)]
pub struct Config {
    /// How many workers perform requests side by side.
    pub worker_threads: usize,
    /// How many callbacks one tick delivers when there is no backlog.
    pub callbacks_per_frame: usize,
    /// The spacing, in microseconds, between two attempts at one request.
    pub microseconds_delay_between_attempts: u64,
}

/// The settings as the settings file states them, or the first thing that
/// is wrong with it: the queue's section is missing; then, for the number of
/// workers, the number of callbacks per tick and the spacing of attempts in
/// turn, the setting is missing or writes no number that fits.
pub open spec fn settings_of(
    section_found: bool,
    worker_threads: Option<Seq<char>>,
    callbacks_per_frame: Option<Seq<char>>,
    delay: Option<Seq<char>>,
) -> Result<Config, ConfigError> {
    if !section_found {
        Err(ConfigError::MissingSection)
    } else if worker_threads is None {
        Err(ConfigError::MissingKey(ConfigKey::WorkerThreads))
    } else if setting_value(worker_threads->Some_0) is None {
        Err(ConfigError::Unparseable(ConfigKey::WorkerThreads))
    } else if callbacks_per_frame is None {
        Err(ConfigError::MissingKey(ConfigKey::CallbacksPerFrame))
    } else if setting_value(callbacks_per_frame->Some_0) is None {
        Err(ConfigError::Unparseable(ConfigKey::CallbacksPerFrame))
    } else if delay is None {
        Err(ConfigError::MissingKey(ConfigKey::MicrosecondsDelayBetweenAttempts))
    } else if setting_value(delay->Some_0) is None {
        Err(ConfigError::Unparseable(ConfigKey::MicrosecondsDelayBetweenAttempts))
    } else {
        Ok(
            Config {
                worker_threads: setting_value(worker_threads->Some_0)->Some_0,
                callbacks_per_frame: setting_value(callbacks_per_frame->Some_0)->Some_0,
                microseconds_delay_between_attempts: setting_value(delay->Some_0)->Some_0 as u64,
            },
        )
    }
}

/// The text of an optional setting as plain values.
pub open spec fn setting_text(setting: Option<&str>) -> Option<Seq<char>> {
    match setting {
        Some(text) => Some(text@),
        None => None,
    }
}

impl Config {
    /// Reads the settings from what the settings file holds under the
    /// queue's section.
    pub fn from_settings(
        section_found: bool,
        worker_threads: Option<&str>,
        callbacks_per_frame: Option<&str>,
        delay: Option<&str>,
    ) -> (config: Result<Config, ConfigError>)
        ensures
            config == settings_of(
                section_found,
                setting_text(worker_threads),
                setting_text(callbacks_per_frame),
                setting_text(delay),
            ),
    {
        if !section_found {
            return Err(ConfigError::MissingSection);
        }
        let workers = match worker_threads {
            None => {
                return Err(ConfigError::MissingKey(ConfigKey::WorkerThreads));
            },
            Some(text) => match parse_setting(text) {
                None => {
                    return Err(ConfigError::Unparseable(ConfigKey::WorkerThreads));
                },
                Some(value) => value,
            },
        };
        let callbacks = match callbacks_per_frame {
            None => {
                return Err(ConfigError::MissingKey(ConfigKey::CallbacksPerFrame));
            },
            Some(text) => match parse_setting(text) {
                None => {
                    return Err(ConfigError::Unparseable(ConfigKey::CallbacksPerFrame));
                },
                Some(value) => value,
            },
        };
        let spacing = match delay {
            None => {
                return Err(ConfigError::MissingKey(ConfigKey::MicrosecondsDelayBetweenAttempts));
            },
            Some(text) => match parse_setting(text) {
                None => {
                    return Err(
                        ConfigError::Unparseable(ConfigKey::MicrosecondsDelayBetweenAttempts),
                    );
                },
                Some(value) => value,
            },
        };
        Ok(
            Config {
                worker_threads: workers,
                callbacks_per_frame: callbacks,
                microseconds_delay_between_attempts: spacing as u64,
            },
        )
    }
}

} // verus!
