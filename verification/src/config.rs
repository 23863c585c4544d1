//! The settings that the service starts with.

use crate::text::{optional_text, parse_u16, parse_u16_text};
use vstd::prelude::*;
use vstd::string::StringExecFns;

verus! {

/// The settings of a running service.
#[derive(Clone, Debug)]
pub struct Config {
    /// How to reach the database.
    pub database_url: String,
    /// The key that tokens are signed with.
    pub jwt_secret: String,
    pub host: String,
    pub port: u16,
    /// The directory under which uploaded audio lies.
    pub upload_dir: String,
}

/// Why no settings could be made.
#[derive(Clone, Copy, Debug, PartialEq, Eq, Structural)]
pub enum ConfigError {
    MissingDatabaseUrl,
    MissingJwtSecret,
    InvalidPort,
}

/// The port that the text of a setting gives, `8080` where the setting is
/// absent; `None` where the text is no port number.
pub open spec fn port_setting(port: Option<Seq<char>>) -> Option<u16> {
    match port {
        Some(text) => parse_u16_text(text),
        None => Some(8080u16),
    }
}

/// What stands in the way of settings made from the given values, if
/// anything: the first of a missing database address, a missing signing
/// secret and an unreadable port.
pub open spec fn config_error(
    database_url: Option<Seq<char>>,
    jwt_secret: Option<Seq<char>>,
    port: Option<Seq<char>>,
) -> Option<ConfigError> {
    if database_url is None {
        Some(ConfigError::MissingDatabaseUrl)
    } else if jwt_secret is None {
        Some(ConfigError::MissingJwtSecret)
    } else if port_setting(port) is None {
        Some(ConfigError::InvalidPort)
    } else {
        None
    }
}

/// A setting, or the default that stands in for it.
pub open spec fn setting_or(value: Option<Seq<char>>, default: Seq<char>) -> Seq<char> {
    match value {
        Some(text) => text,
        None => default,
    }
}

/// A copy of the setting, or the default where there is none.
fn value_or(value: Option<String>, default: &str) -> (r: String)
    ensures
        r@ == setting_or(optional_text(value), default@),
{
    match value {
        Some(text) => text,
        None => String::from_str(default),
    }
}

impl Config {
    /// Makes the settings from the values of the five settings, each absent
    /// where it was not given. The database address and the signing secret
    /// must be there; the host defaults to `127.0.0.1`, the port to `8080`
    /// and the upload directory to `./uploads`. The port is a decimal number
    /// below 65536.
    pub fn from_values(
        database_url: Option<String>,
        jwt_secret: Option<String>,
        host: Option<String>,
        port: Option<String>,
        upload_dir: Option<String>,
    ) -> (r: Result<Config, ConfigError>)
        ensures
            match r {
                Ok(config) => {
                    &&& config_error(
                        optional_text(database_url),
                        optional_text(jwt_secret),
                        optional_text(port),
                    ) is None
                    &&& Some(config.database_url@) == optional_text(database_url)
                    &&& Some(config.jwt_secret@) == optional_text(jwt_secret)
                    &&& config.host@ == setting_or(optional_text(host), "127.0.0.1"@)
                    &&& Some(config.port) == port_setting(optional_text(port))
                    &&& config.upload_dir@ == setting_or(optional_text(upload_dir), "./uploads"@)
                },
                Err(e) => config_error(
                    optional_text(database_url),
                    optional_text(jwt_secret),
                    optional_text(port),
                ) == Some(e),
            },
    {
        let database_url = match database_url {
            Some(text) => text,
            None => {
                return Err(ConfigError::MissingDatabaseUrl);
            },
        };
        let jwt_secret = match jwt_secret {
            Some(text) => text,
            None => {
                return Err(ConfigError::MissingJwtSecret);
            },
        };
        let port_number: Option<u16> = match &port {
            Some(text) => parse_u16(text.as_str()),
            None => Some(8080),
        };
        let port = match port_number {
            Some(number) => number,
            None => {
                return Err(ConfigError::InvalidPort);
            },
        };
        Ok(
            Config {
                database_url,
                jwt_secret,
                host: value_or(host, "127.0.0.1"),
                port,
                upload_dir: value_or(upload_dir, "./uploads"),
            },
        )
    }
}

} // verus!
