//! Application configuration: the environment name, read once at startup from
//! the process environment by the surrounding program and parsed here.
use vstd::prelude::*;

use crate::text::str_eq;

verus! {

/// The environment the application runs in.
#[derive(Clone, Copy, Debug, PartialEq, Eq, Structural)]
pub enum Environment {
    Development,
    Production,
}

impl Environment {
    /// The lowercase name of the environment.
    pub fn to_string(&self) -> (r: String)
        ensures
            r@ == spec_environment_name(*self),
    {
        match self {
            Environment::Development => "development".to_owned(),
            Environment::Production => "production".to_owned(),
        }
    }

    /// Read an environment from its lowercase name; `None` on any other text.
    pub fn parse(s: &str) -> (r: Option<Environment>)
        ensures
            match r {
                Option::Some(e) => s@ == spec_environment_name(e),
                Option::None => s@ != spec_environment_name(Environment::Development) && s@
                    != spec_environment_name(Environment::Production),
            },
    {
        if str_eq(s, "development") {
            Some(Environment::Development)
        } else if str_eq(s, "production") {
            Some(Environment::Production)
        } else {
            None
        }
    }
}

pub open spec fn spec_environment_name(e: Environment) -> Seq<char> {
    match e {
        Environment::Development => "development"@,
        Environment::Production => "production"@,
    }
}

/// Application config.
#[derive(Clone, Copy, Debug, PartialEq, Eq, Structural)]
pub struct Config {
    /// The environment the application is running in.
    pub environment: Environment,
}

impl Config {
    /// Create a new `Config`.
    pub fn new(environment: Environment) -> (r: Config)
        ensures
            r.environment == environment,
    {
        Config { environment }
    }
}

/// Why no config could be made from the process environment.
#[derive(Clone, Copy, Debug, PartialEq, Eq, Structural)]
pub enum ConfigError {
    /// The environment variable is absent.
    MissingEnvironment,
    /// The environment variable names no known environment.
    UnknownEnvironment,
}

/// Build the config from the value of the environment variable, if any:
/// `Ok` exactly when the value is present and names a known environment.
pub fn get_config(environment_var: Option<&str>) -> (r: Result<Config, ConfigError>)
    ensures
        match r {
            Result::Ok(c) => environment_var matches Option::Some(s) && s@
                == spec_environment_name(c.environment),
            Result::Err(e) => match e {
                ConfigError::MissingEnvironment => environment_var is None,
                ConfigError::UnknownEnvironment => environment_var matches Option::Some(s) && s@
                    != spec_environment_name(Environment::Development) && s@
                    != spec_environment_name(Environment::Production),
            },
        },
{
    match environment_var {
        Option::Some(s) => match Environment::parse(s) {
            Option::Some(e) => Result::Ok(Config { environment: e }),
            Option::None => Result::Err(ConfigError::UnknownEnvironment),
        },
        Option::None => Result::Err(ConfigError::MissingEnvironment),
    }
}

} // verus!
