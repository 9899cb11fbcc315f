//! The configuration of a decision point, from environment variables.

use std::num::ParseIntError;
use std::time::Duration;

use vstd::prelude::*;

use crate::text;

verus! {

/// The variable that holds the address to listen on.
pub const BIND_VARIABLE: &'static str = "AUTHZ_BIND";

/// The variable that holds the path of the policies.
pub const POLICY_PATH_VARIABLE: &'static str = "AUTHZ_POLICY_PATH";

/// The variable that holds the path of the schema.
pub const SCHEMA_PATH_VARIABLE: &'static str = "AUTHZ_SCHEMA_PATH";

/// The variable that holds how many seconds pass between looks at the policies.
pub const REFRESH_VARIABLE: &'static str = "AUTHZ_POLICY_REFRESH_SECS";

/// The address to listen on where none is configured.
pub const DEFAULT_BIND: &'static str = "127.0.0.1:9000";

/// The seconds between looks at the policies where none are configured.
pub const DEFAULT_REFRESH: &'static str = "30";

/// `std::num::ParseIntError`, why a text is no integer.
#[verifier::external_type_specification]
#[verifier::external_body]
pub struct ExParseIntError(ParseIntError);

/// The text that a `ParseIntError` displays.
pub uninterp spec fn parse_int_message(error: ParseIntError) -> Seq<char>;

/// The error that `str::parse` rejects a text with that states no `u64`.
pub uninterp spec fn u64_error(text: Seq<char>) -> ParseIntError;

/// The length of a `Duration`.
pub uninterp spec fn nanoseconds(duration: Duration) -> nat;

/// The number that a text states: a decimal that a `u64` can hold.
pub open spec fn stated_u64(text: Seq<char>) -> Option<nat> {
    match text::decimal(text) {
        Some(number) => if number <= u64::MAX {
            Some(number)
        } else {
            None
        },
        None => None,
    }
}

/// `str::parse` reads a `u64` from an optional `+` and decimal digits, and rejects
/// every other text, with an error that is named [`u64_error`].
#[verifier::external_body]
pub(crate) fn parse_u64(text: &str) -> (result: Result<u64, ParseIntError>)
    ensures
        match result {
            Ok(number) => text::decimal(text@) == Some(number as nat),
            Err(error) => stated_u64(text@) is None && error == u64_error(text@),
        },
{
    text.parse::<u64>()
}

/// `to_string` of `ParseIntError` gives the text that the error displays.
#[verifier::external_body]
pub(crate) fn parse_int_error_text(error: &ParseIntError) -> (text: String)
    ensures
        text@ == parse_int_message(*error),
{
    error.to_string()
}

/// `Duration::from_secs` makes a time of whole seconds.
#[verifier::external_body]
pub(crate) fn whole_seconds(seconds: u64) -> (duration: Duration)
    ensures
        nanoseconds(duration) == seconds * 1_000_000_000,
{
    Duration::from_secs(seconds)
}

/// An IP address.
#[derive(Clone, Copy, Debug, PartialEq, Eq)]
pub enum IpAddress {
    V4 { octets: [u8; 4] },
    V6 { segments: [u16; 8], flowinfo: u32, scope_id: u32 },
}

/// An IP address and a port.
#[derive(Clone, Copy, Debug, PartialEq, Eq)]
pub struct SocketAddress {
    pub ip: IpAddress,
    pub port: u16,
}

impl IpAddress {
    /// The address stands for every address of the machine: all of it is zero.
    pub open spec fn unspecified(self) -> bool {
        match self {
            IpAddress::V4 { octets } => forall|i: int| 0 <= i < 4 ==> #[trigger] octets@[i] == 0,
            IpAddress::V6 { segments, .. } => forall|i: int|
                0 <= i < 8 ==> #[trigger] segments@[i] == 0,
        }
    }

    /// The address is that by which a machine reaches itself.
    pub open spec fn loopback(self) -> bool {
        self matches IpAddress::V4 { octets } && octets@ == seq![127u8, 0u8, 0u8, 1u8]
    }

    /// Whether the address stands for every address of the machine.
    pub fn is_unspecified(&self) -> (unspecified: bool)
        ensures
            unspecified == self.unspecified(),
    {
        match self {
            IpAddress::V4 { octets } => {
                octets[0] == 0 && octets[1] == 0 && octets[2] == 0 && octets[3] == 0
            },
            IpAddress::V6 { segments, .. } => {
                segments[0] == 0 && segments[1] == 0 && segments[2] == 0 && segments[3] == 0
                    && segments[4] == 0 && segments[5] == 0 && segments[6] == 0 && segments[7] == 0
            },
        }
    }
}

/// The environment variables that a configuration is made of. Those that are not
/// set, or hold no text, are absent.
#[derive(Debug)]
pub struct Environment {
    /// What [`BIND_VARIABLE`], or [`DEFAULT_BIND`] in its place, says as an
    /// address; else the reason why it is none.
    pub bind: Result<SocketAddress, String>,
    pub policy_path: Option<String>,
    pub schema_path: Option<String>,
    pub refresh_secs: Option<String>,
}

/// The configuration of a decision point.
#[derive(Debug)]
pub struct Config {
    /// The address to listen on.
    pub bind: SocketAddress,
    /// The path of the policies.
    pub policy_path: String,
    /// The path of the schema.
    pub schema_path: String,
    /// The time between looks at the policies.
    pub refresh: Duration,
}

impl Clone for Config {
    fn clone(&self) -> (copy: Self)
        ensures
            copy.bind == self.bind,
            copy.policy_path@ == self.policy_path@,
            copy.schema_path@ == self.schema_path@,
            copy.refresh == self.refresh,
    {
        Config {
            bind: self.bind,
            policy_path: self.policy_path.clone(),
            schema_path: self.schema_path.clone(),
            refresh: self.refresh,
        }
    }
}

/// Why there is no configuration.
#[derive(Debug)]
pub enum ConfigError {
    /// A variable that must be set is not.
    Missing(&'static str),
    /// A variable holds what it must not.
    Invalid(&'static str, String),
}

impl ConfigError {
    /// What is said of the error.
    pub open spec fn message_text(self) -> Seq<char> {
        match self {
            ConfigError::Missing(key) => "missing required environment variable: "@ + key@,
            ConfigError::Invalid(key, reason) => "invalid value for "@ + key@ + ": "@ + reason@,
        }
    }

    /// What is said of the error.
    pub fn message(&self) -> (message: String)
        ensures
            message@ == self.message_text(),
    {
        match self {
            ConfigError::Missing(key) => text::concatenate(
                "missing required environment variable: ",
                key,
            ),
            ConfigError::Invalid(key, reason) => {
                let mut message = text::concatenate("invalid value for ", key);
                message.append(": ");
                message.append(reason.as_str());
                message
            },
        }
    }
}

/// The text that a variable holds, or its default.
pub open spec fn value_or(value: Option<String>, default: Seq<char>) -> Seq<char> {
    match value {
        Some(value) => value@,
        None => default,
    }
}

/// The text that a variable holds, or its default.
pub fn env_or(value: &Option<String>, default: &str) -> (text: String)
    ensures
        text@ == value_or(*value, default@),
{
    match value {
        Some(value) => value.clone(),
        None => default.to_string(),
    }
}

/// The text that a variable holds; an error where it is not set.
pub fn require_env(key: &'static str, value: &Option<String>) -> (result: Result<
    String,
    ConfigError,
>)
    ensures
        match (result, *value) {
            (Ok(text), Some(value)) => text@ == value@,
            (Err(error), None) => error == ConfigError::Missing(key),
            _ => false,
        },
{
    match value {
        Some(value) => Ok(value.clone()),
        None => Err(ConfigError::Missing(key)),
    }
}

/// What the text of a variable was read as; an error, with the reason, where it
/// could not be read.
pub fn parse_env<T>(key: &'static str, parsed: Result<T, String>) -> (result: Result<
    T,
    ConfigError,
>)
    ensures
        match parsed {
            Ok(value) => result == Ok::<T, ConfigError>(value),
            Err(reason) => result == Err::<T, ConfigError>(ConfigError::Invalid(key, reason)),
        },
{
    match parsed {
        Ok(value) => Ok(value),
        Err(reason) => Err(ConfigError::Invalid(key, reason)),
    }
}

/// The seconds that a text states; the reason where it states none.
pub fn parse_seconds(text: &str) -> (result: Result<u64, String>)
    ensures
        match result {
            Ok(seconds) => text::decimal(text@) == Some(seconds as nat),
            Err(reason) => stated_u64(text@) is None && reason@ == parse_int_message(
                u64_error(text@),
            ),
        },
{
    match parse_u64(text) {
        Ok(seconds) => Ok(seconds),
        Err(error) => Err(parse_int_error_text(&error)),
    }
}

impl Environment {
    /// The text that the environment states the seconds by.
    pub open spec fn seconds_text(self) -> Seq<char> {
        value_or(self.refresh_secs, DEFAULT_REFRESH@)
    }
}

impl Config {
    /// The configuration that the environment describes. The first variable that
    /// is missing or invalid is reported: of the address, the two paths and the
    /// time, in this order.
    pub fn from_env(environment: &Environment) -> (result: Result<Self, ConfigError>)
        ensures
            match (environment.bind, environment.policy_path, environment.schema_path) {
                (Err(reason), _, _) => result matches Err(ConfigError::Invalid(key, told)) && key@
                    == BIND_VARIABLE@ && told@ == reason@,
                (Ok(_), None, _) => result matches Err(ConfigError::Missing(key)) && key@
                    == POLICY_PATH_VARIABLE@,
                (Ok(_), Some(_), None) => result matches Err(ConfigError::Missing(key)) && key@
                    == SCHEMA_PATH_VARIABLE@,
                (Ok(bind), Some(policy_path), Some(schema_path)) => match stated_u64(
                    environment.seconds_text(),
                ) {
                    None => result matches Err(ConfigError::Invalid(key, told)) && key@
                        == REFRESH_VARIABLE@ && told@ == parse_int_message(
                        u64_error(environment.seconds_text()),
                    ),
                    Some(seconds) => {
                        &&& result matches Ok(config)
                        &&& config.bind == bind
                        &&& config.policy_path@ == policy_path@
                        &&& config.schema_path@ == schema_path@
                        &&& nanoseconds(config.refresh) == seconds * 1_000_000_000
                    },
                },
            },
    {
        let bind = match &environment.bind {
            Ok(bind) => *bind,
            Err(reason) => {
                return Err(ConfigError::Invalid(BIND_VARIABLE, reason.clone()));
            },
        };
        let policy_path = match require_env(POLICY_PATH_VARIABLE, &environment.policy_path) {
            Ok(path) => path,
            Err(error) => {
                return Err(error);
            },
        };
        let schema_path = match require_env(SCHEMA_PATH_VARIABLE, &environment.schema_path) {
            Ok(path) => path,
            Err(error) => {
                return Err(error);
            },
        };
        let stated = env_or(&environment.refresh_secs, DEFAULT_REFRESH);
        match parse_env(REFRESH_VARIABLE, parse_seconds(stated.as_str())) {
            Ok(seconds) => Ok(
                Config { bind, policy_path, schema_path, refresh: whole_seconds(seconds) },
            ),
            Err(error) => Err(error),
        }
    }

    /// The address at which the decision point that listens on `bind` is to be
    /// reached from its own machine.
    pub fn health_target(bind: &Result<SocketAddress, String>) -> (target: SocketAddress)
        ensures
            is_health_target(target, *bind),
    {
        match bind {
            Ok(address) => resolve_health_target(Some(*address)),
            Err(_) => resolve_health_target(None),
        }
    }
}

/// `target` is where a decision point that listens on `bind` is to be reached
/// from its own machine: the address itself, or the loopback address where it
/// stands for every address, with the same port; the default where there is no
/// address.
pub open spec fn is_health_target(
    target: SocketAddress,
    bind: Result<SocketAddress, String>,
) -> bool {
    match bind {
        Ok(address) => resolves_to(target, Some(address)),
        Err(_) => resolves_to(target, None),
    }
}

/// `target` is where a decision point that listens on `address` is to be reached.
pub open spec fn resolves_to(target: SocketAddress, address: Option<SocketAddress>) -> bool {
    match address {
        Some(address) => if address.ip.unspecified() {
            target.ip.loopback() && target.port == address.port
        } else {
            target == address
        },
        None => target.ip.loopback() && target.port == 9000,
    }
}

/// The address at which a decision point that listens on `address` is to be
/// reached from its own machine.
pub fn resolve_health_target(address: Option<SocketAddress>) -> (target: SocketAddress)
    ensures
        resolves_to(target, address),
{
    match address {
        Some(address) => if address.ip.is_unspecified() {
            SocketAddress {
                ip: IpAddress::V4 { octets: [127, 0, 0, 1] },
                port: address.port,
            }
        } else {
            address
        },
        None => SocketAddress { ip: IpAddress::V4 { octets: [127, 0, 0, 1] }, port: 9000 },
    }
}

} // verus!
