//! How records are written.

use vstd::prelude::*;

use crate::text;

verus! {

/// The variable that holds the form of the records.
pub const FORMAT_VARIABLE: &'static str = "AUTHZ_LOG_FORMAT";

/// Which records are written where no filter is configured.
pub const DEFAULT_FILTER: &'static str = "info";

/// The form that records are written in.
#[derive(Clone, Copy, Debug, PartialEq, Eq, Structural)]
pub enum LogFormat {
    /// For people.
    Text,
    /// A JSON object on each line.
    Json,
}

/// The form that the variable asks for: JSON where it says so, else text.
pub fn log_format(value: Option<&str>) -> (format: LogFormat)
    ensures
        format == (if value is Some && value->0@ == "json"@ {
            LogFormat::Json
        } else {
            LogFormat::Text
        }),
{
    match value {
        Some(value) => if text::is_same_text(value, "json") {
            LogFormat::Json
        } else {
            LogFormat::Text
        },
        None => LogFormat::Text,
    }
}

} // verus!
