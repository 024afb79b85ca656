//! The service configuration, read from the values of the environment.
//!
//! Reading the environment itself is left to the program; what each value
//! means, and what stands in for a missing one, is decided here.

use crate::text::{list_items, number_of, parse_bool, parse_list, parse_usize, texts, truth_of};
use vstd::prelude::*;

verus! {

/// The configuration of the service.
#[derive(Debug)]
pub struct Config {
    pub app_url: String,
    pub service_port: String,
    pub database_url: String,
    pub cors_domains: Vec<String>,
    pub processing_batch_size: usize,
    pub is_development: bool,
}

/// The raw values of the environment variables that the configuration is
/// read from; `None` where a variable is not set.
#[derive(Debug)]
pub struct Environment {
    pub app_url: Option<String>,
    pub service_port: Option<String>,
    pub database_url: Option<String>,
    pub cors_domains: Option<String>,
    pub processing_batch_size: Option<String>,
    pub is_development: Option<String>,
}

/// The variable whose value could not be read.
#[derive(Clone, Copy, Debug, PartialEq, Eq, Structural)]
pub enum ConfigError {
    /// `PROCESSING_BATCH_SIZE` is not a number that fits a machine word.
    ProcessingBatchSize,
    /// `IS_DEVELOPMENT` is neither `true` nor `false`.
    IsDevelopment,
}

impl ConfigError {
    /// The name of the variable.
    pub fn key(&self) -> (name: &'static str)
        ensures
            name@ == match *self {
                ConfigError::ProcessingBatchSize => "PROCESSING_BATCH_SIZE"@,
                ConfigError::IsDevelopment => "IS_DEVELOPMENT"@,
            },
    {
        match self {
            ConfigError::ProcessingBatchSize => "PROCESSING_BATCH_SIZE",
            ConfigError::IsDevelopment => "IS_DEVELOPMENT",
        }
    }

    /// The message that reports the error.
    pub fn message(&self) -> (text: String)
        ensures
            text@ == "Failed to parse "@ + match *self {
                ConfigError::ProcessingBatchSize => "PROCESSING_BATCH_SIZE"@,
                ConfigError::IsDevelopment => "IS_DEVELOPMENT"@,
            },
    {
        String::from_str("Failed to parse ").concat(self.key())
    }
}

/// The value of a variable, or the default where it is not set.
pub open spec fn value_or(value: Option<String>, default: Seq<char>) -> Seq<char> {
    match value {
        Some(v) => v@,
        None => default,
    }
}

/// The batch size that the environment asks for: four where it says
/// nothing, and none where what it says is not a number that fits a machine
/// word.
pub open spec fn batch_size_of(value: Option<String>) -> Option<usize> {
    match value {
        Some(v) => match number_of(v@) {
            Some(n) => if n <= usize::MAX {
                Some(n as usize)
            } else {
                None
            },
            None => None,
        },
        None => Some(4usize),
    }
}

/// Whether the environment asks for development mode: no where it says
/// nothing, and none where what it says is no truth value.
pub open spec fn development_of(value: Option<String>) -> Option<bool> {
    match value {
        Some(v) => truth_of(v@),
        None => Some(false),
    }
}

impl Config {
    /// The value of a text variable, or the default where it is not set.
    pub fn get_env(value: Option<String>, default: &str) -> (text: String)
        ensures
            text@ == value_or(value, default@),
    {
        match value {
            Some(v) => v,
            None => String::from_str(default),
        }
    }

    /// The value of a list variable: its comma-separated items, trimmed,
    /// without the empty ones.
    pub fn get_env_list(value: Option<String>, default: &str) -> (items: Vec<String>)
        ensures
            texts(items@) == list_items(value_or(value, default@), ','),
    {
        let text = Config::get_env(value, default);
        parse_list(text.as_str(), ',')
    }

    /// The value of a number variable, or the default where it is not set;
    /// `None` where the value is not a number that fits a machine word.
    pub fn get_env_usize(value: Option<String>, default: usize) -> (number: Option<usize>)
        ensures
            number == match value {
                Some(v) => match number_of(v@) {
                    Some(n) => if n <= usize::MAX {
                        Some(n as usize)
                    } else {
                        None
                    },
                    None => None,
                },
                None => Some(default),
            },
    {
        match value {
            Some(v) => parse_usize(v.as_str()),
            None => Some(default),
        }
    }

    /// The value of a truth variable, or the default where it is not set;
    /// `None` where the value is neither `true` nor `false`.
    pub fn get_env_bool(value: Option<String>, default: bool) -> (truth: Option<bool>)
        ensures
            truth == match value {
                Some(v) => truth_of(v@),
                None => Some(default),
            },
    {
        match value {
            Some(v) => parse_bool(v.as_str()),
            None => Some(default),
        }
    }

    /// Builds the configuration from the values of the environment, with
    /// the defaults for what is not set. A batch size or a development flag
    /// that cannot be read is an error; the batch size is looked at first.
    pub fn new(env: Environment) -> (r: Result<Config, ConfigError>)
        ensures
            match r {
                Ok(config) => {
                    &&& config.app_url@ == value_or(env.app_url, "127.0.0.1:8080"@)
                    &&& config.service_port@ == value_or(env.service_port, "5775"@)
                    &&& config.database_url@ == value_or(env.database_url, "/data/stats.sqlite"@)
                    &&& texts(config.cors_domains@) == list_items(
                        value_or(env.cors_domains, ""@),
                        ',',
                    )
                    &&& batch_size_of(env.processing_batch_size) == Some(
                        config.processing_batch_size,
                    )
                    &&& development_of(env.is_development) == Some(config.is_development)
                },
                Err(ConfigError::ProcessingBatchSize) => batch_size_of(env.processing_batch_size)
                    is None,
                Err(ConfigError::IsDevelopment) => {
                    &&& batch_size_of(env.processing_batch_size) is Some
                    &&& development_of(env.is_development) is None
                },
            },
    {
        let app_url = Config::get_env(env.app_url, "127.0.0.1:8080");
        let service_port = Config::get_env(env.service_port, "5775");
        let database_url = Config::get_env(env.database_url, "/data/stats.sqlite");
        let cors_domains = Config::get_env_list(env.cors_domains, "");
        let processing_batch_size = match Config::get_env_usize(env.processing_batch_size, 4) {
            Some(n) => n,
            None => {
                return Err(ConfigError::ProcessingBatchSize);
            },
        };
        let is_development = match Config::get_env_bool(env.is_development, false) {
            Some(b) => b,
            None => {
                return Err(ConfigError::IsDevelopment);
            },
        };
        Ok(
            Config {
                app_url,
                service_port,
                database_url,
                cors_domains,
                processing_batch_size,
                is_development,
            },
        )
    }
}

} // verus!
