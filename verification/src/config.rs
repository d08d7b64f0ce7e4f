//! Server configuration, computed from the values of its environment
//! variables.

use crate::text::{copy_text, join2, join3};
use vstd::prelude::*;

verus! {

/// The server's settings.
#[derive(Debug, Clone)]
pub struct Config {
    pub server_addr: String,
    pub database_url: String,
    pub redis_url: String,
    pub character_name: String,
    pub otlp_endpoint: Option<String>,
    pub asset_addr: String,
    pub tick_hz: u64,
    pub database_max_connections: u32,
}

/// Why the configuration could not be read.
#[derive(Debug)]
pub struct ConfigError(String);

impl ConfigError {
    pub closed spec fn spec_message(&self) -> Seq<char> {
        self.0@
    }

    /// The text that explains the error.
    pub fn message(&self) -> (r: &String)
        ensures
            r@ == self.spec_message(),
    {
        &self.0
    }
}

/// The values of the environment variables that the server reads; `None`
/// where a variable is not set.
#[derive(Debug, Clone)]
pub struct ConfigSource {
    pub database_url: Option<String>,
    pub redis_url: Option<String>,
    pub server_addr: Option<String>,
    pub character_name: Option<String>,
    pub otlp_endpoint: Option<String>,
    pub asset_addr: Option<String>,
    pub tick_hz: Option<String>,
    pub database_max_connections: Option<String>,
}

pub open spec fn is_ascii_digit(c: char) -> bool {
    '0' <= c && c <= '9'
}

/// The number that a run of decimal digits writes.
pub open spec fn digits_value(digits: Seq<char>) -> int
    decreases digits.len(),
{
    if digits.len() == 0 {
        0
    } else {
        digits_value(digits.drop_last()) * 10 + ((digits.last() as u32) - ('0' as u32))
    }
}

pub open spec fn all_digits(digits: Seq<char>) -> bool {
    digits.len() > 0 && forall|i: int| 0 <= i < digits.len() ==> is_ascii_digit(#[trigger] digits[i])
}

/// `u64::from_str`: an optional `+`, then one or more digits, in range.
pub open spec fn spec_parse_u64(text: Seq<char>) -> Option<u64> {
    let digits = if text.len() > 0 && text[0] == '+' {
        text.drop_first()
    } else {
        text
    };
    if all_digits(digits) && digits_value(digits) <= u64::MAX {
        Some(digits_value(digits) as u64)
    } else {
        None
    }
}

/// `i32::from_str`: an optional `+` or `-`, then one or more digits, in range.
pub open spec fn spec_parse_i32(text: Seq<char>) -> Option<i32> {
    if text.len() > 0 && text[0] == '-' {
        let digits = text.drop_first();
        if all_digits(digits) && digits_value(digits) <= 0x8000_0000 {
            Some((0 - digits_value(digits)) as i32)
        } else {
            None
        }
    } else {
        let digits = if text.len() > 0 && text[0] == '+' {
            text.drop_first()
        } else {
            text
        };
        if all_digits(digits) && digits_value(digits) <= i32::MAX {
            Some(digits_value(digits) as i32)
        } else {
            None
        }
    }
}

/// Parses a decimal `u64` with `str::parse`. The contract claims the grammar
/// that the documentation of `u64::from_str` gives.
#[verifier::external_body]
fn parse_u64_text(text: &str) -> (r: Option<u64>)
    ensures
        r == spec_parse_u64(text@),
{
    text.parse::<u64>().ok()
}

/// Parses a decimal `i32` with `str::parse`. The contract claims the grammar
/// that the documentation of `i32::from_str` gives.
#[verifier::external_body]
fn parse_i32_text(text: &str) -> (r: Option<i32>)
    ensures
        r == spec_parse_i32(text@),
{
    text.parse::<i32>().ok()
}

/// A number that a setting can hold.
pub trait DecimalSetting: Sized + Copy {
    spec fn spec_parse(text: Seq<char>) -> Option<Self>;

    spec fn spec_positive(self) -> bool;

    fn parse_decimal(text: &str) -> (r: Option<Self>)
        ensures
            r == Self::spec_parse(text@),
    ;

    fn is_positive(self) -> (r: bool)
        ensures
            r == self.spec_positive(),
    ;
}

impl DecimalSetting for u64 {
    open spec fn spec_parse(text: Seq<char>) -> Option<u64> {
        spec_parse_u64(text)
    }

    open spec fn spec_positive(self) -> bool {
        self > 0
    }

    fn parse_decimal(text: &str) -> (r: Option<u64>) {
        parse_u64_text(text)
    }

    fn is_positive(self) -> (r: bool) {
        self > 0
    }
}

impl DecimalSetting for i32 {
    open spec fn spec_parse(text: Seq<char>) -> Option<i32> {
        spec_parse_i32(text)
    }

    open spec fn spec_positive(self) -> bool {
        self > 0
    }

    fn parse_decimal(text: &str) -> (r: Option<i32>) {
        parse_i32_text(text)
    }

    fn is_positive(self) -> (r: bool) {
        self > 0
    }
}

/// A number setting: its value must parse and be greater than zero; an unset
/// variable takes the default.
pub open spec fn spec_parse_positive<T: DecimalSetting>(
    name: Seq<char>,
    value: Option<Seq<char>>,
    default: T,
) -> Result<T, Seq<char>> {
    let parsed = match value {
        Some(text) => T::spec_parse(text),
        None => Some(default),
    };
    match parsed {
        None => Err(name + " must be a positive number, got "@ + value->Some_0),
        Some(v) => if v.spec_positive() {
            Ok(v)
        } else {
            Err(name + " must be greater than zero"@)
        },
    }
}

pub fn parse_positive<T: DecimalSetting>(name: &str, value: Option<&str>, default: T) -> (r: Result<
    T,
    ConfigError,
>)
    ensures
        match spec_parse_positive(name@, spec_str_opt(value), default) {
            Ok(v) => r matches Ok(x) && x == v,
            Err(message) => r matches Err(e) && e.spec_message() == message,
        },
{
    let parsed = match value {
        Some(text) => match T::parse_decimal(text) {
            Some(v) => v,
            None => {
                return Err(ConfigError(join3(name, " must be a positive number, got ", text)));
            },
        },
        None => default,
    };
    if !parsed.is_positive() {
        return Err(ConfigError(join2(name, " must be greater than zero")));
    }
    Ok(parsed)
}

/// A variable that must be set.
pub fn required(name: &str, value: Option<String>) -> (r: Result<String, ConfigError>)
    ensures
        match value {
            Some(v) => r matches Ok(s) && s@ == v@,
            None => r matches Err(e) && e.spec_message() == "missing required environment variable "@
                + name@,
        },
{
    match value {
        Some(v) => Ok(v),
        None => Err(ConfigError(join2("missing required environment variable ", name))),
    }
}

/// A variable with a default.
pub fn optional(value: Option<String>, default: &str) -> (r: String)
    ensures
        r@ == match value {
            Some(v) => v@,
            None => default@,
        },
{
    match value {
        Some(v) => v,
        None => copy_text(default),
    }
}

pub open spec fn spec_text(value: Option<String>) -> Option<Seq<char>> {
    match value {
        Some(v) => Some(v@),
        None => None,
    }
}

pub open spec fn spec_str_opt(value: Option<&str>) -> Option<Seq<char>> {
    match value {
        Some(v) => Some(v@),
        None => None,
    }
}

pub open spec fn spec_or(value: Option<String>, default: Seq<char>) -> Seq<char> {
    match value {
        Some(v) => v@,
        None => default,
    }
}

/// The configuration that a set of variable values gives, checked in order:
/// `DATABASE_URL`, `REDIS_URL`, `GAME_TICK_HZ` (default 60) and
/// `DATABASE_MAX_CONNECTIONS` (default 5, read as an `i32`).
pub open spec fn spec_config_ok(source: ConfigSource, config: Config) -> bool {
    &&& source.database_url matches Some(d) && config.database_url@ == d@
    &&& source.redis_url matches Some(d) && config.redis_url@ == d@
    &&& config.server_addr@ == spec_or(source.server_addr, "127.0.0.1:4000"@)
    &&& config.character_name@ == spec_or(source.character_name, "local-player"@)
    &&& config.otlp_endpoint is Some == source.otlp_endpoint is Some
    &&& (config.otlp_endpoint matches Some(e) ==> source.otlp_endpoint matches Some(s) && e@ == s@)
    &&& config.asset_addr@ == spec_or(source.asset_addr, "127.0.0.1:4100"@)
    &&& spec_parse_positive("GAME_TICK_HZ"@, spec_text(source.tick_hz), 60u64) == Ok::<
        u64,
        Seq<char>,
    >(config.tick_hz)
    &&& spec_parse_positive("DATABASE_MAX_CONNECTIONS"@, spec_text(source.database_max_connections), 5i32)
        matches Ok(n) && config.database_max_connections == n
}

/// The first error, in the order the variables are checked, if any.
pub open spec fn spec_config_error(source: ConfigSource) -> Option<Seq<char>> {
    if source.database_url is None {
        Some("missing required environment variable "@ + "DATABASE_URL"@)
    } else if source.redis_url is None {
        Some("missing required environment variable "@ + "REDIS_URL"@)
    } else if let Err(m) = spec_parse_positive(
        "GAME_TICK_HZ"@,
        spec_text(source.tick_hz),
        60u64,
    ) {
        Some(m)
    } else if let Err(m) = spec_parse_positive(
        "DATABASE_MAX_CONNECTIONS"@,
        spec_text(source.database_max_connections),
        5i32,
    ) {
        Some(m)
    } else {
        None
    }
}

fn text_of(value: &Option<String>) -> (r: Option<&str>)
    ensures
        spec_str_opt(r) == spec_text(*value),
{
    match value {
        Some(v) => Some(v.as_str()),
        None => None,
    }
}

impl Config {
    pub fn from_source(source: ConfigSource) -> (r: Result<Config, ConfigError>)
        ensures
            match spec_config_error(source) {
                Some(message) => r matches Err(e) && e.spec_message() == message,
                None => r matches Ok(config) && spec_config_ok(source, config),
            },
    {
        let ghost original = source;
        let tick_text = text_of(&source.tick_hz);
        let connections_text = text_of(&source.database_max_connections);
        let database_url = required("DATABASE_URL", source.database_url)?;
        let redis_url = required("REDIS_URL", source.redis_url)?;
        let server_addr = optional(source.server_addr, "127.0.0.1:4000");
        let character_name = optional(source.character_name, "local-player");
        let otlp_endpoint = source.otlp_endpoint;
        let asset_addr = optional(source.asset_addr, "127.0.0.1:4100");
        let tick_hz = parse_positive("GAME_TICK_HZ", tick_text, 60u64)?;
        let database_max_connections = parse_positive(
            "DATABASE_MAX_CONNECTIONS",
            connections_text,
            5i32,
        )? as u32;
        Ok(
            Config {
                server_addr,
                database_url,
                redis_url,
                character_name,
                otlp_endpoint,
                asset_addr,
                tick_hz,
                database_max_connections,
            },
        )
    }
}

/// A variable that is set is taken as it is: the URLs, addresses, character
/// name and tracing endpoint of a configuration are exactly the values given,
/// and a default is used only for a variable that is unset.
pub proof fn lemma_set_variables_are_used(source: ConfigSource, config: Config)
    requires
        spec_config_ok(source, config),
    ensures
        source.database_url matches Some(v) && config.database_url@ == v@,
        source.redis_url matches Some(v) && config.redis_url@ == v@,
        source.server_addr matches Some(v) ==> config.server_addr@ == v@,
        source.server_addr is None ==> config.server_addr@ == "127.0.0.1:4000"@,
        source.character_name matches Some(v) ==> config.character_name@ == v@,
        source.character_name is None ==> config.character_name@ == "local-player"@,
        source.asset_addr matches Some(v) ==> config.asset_addr@ == v@,
        source.asset_addr is None ==> config.asset_addr@ == "127.0.0.1:4100"@,
        source.otlp_endpoint matches Some(v) ==> config.otlp_endpoint matches Some(e) && e@ == v@,
        source.otlp_endpoint is None ==> config.otlp_endpoint is None,
{
}

} // verus!
