//! The auto-update stub: channel validation only; no release feed is
//! consulted, so no update is ever reported.

use vstd::prelude::*;
use vstd::string::StrSliceExecFns;
use vstd::string::StringExecFns;

use crate::text::str_eq;

verus! {

/// What can go wrong while checking or installing an update.
#[derive(Debug, Clone)]
pub enum UpdateError {
    NetworkError(String),
    ParseError(String),
    NotFound,
    InvalidChannel(String),
}

/// Whether `c` names a recognized update channel.
pub open spec fn valid_channel(c: Seq<char>) -> bool {
    c == "stable"@ || c == "beta"@ || c == "daily"@
}

impl UpdateError {
    /// The error rendered for display.
    pub fn message(&self) -> (s: String)
        ensures
            match self {
                UpdateError::NetworkError(m) => s@ == "Network error: "@ + m@,
                UpdateError::ParseError(m) => s@ == "Failed to parse update info: "@ + m@,
                UpdateError::NotFound => s@ == "No update found (HTTP 404)"@,
                UpdateError::InvalidChannel(c) => s@ == "Invalid update channel: "@ + c@,
            },
    {
        match self {
            UpdateError::NetworkError(m) => String::from_str("Network error: ").concat(
                m.as_str(),
            ),
            UpdateError::ParseError(m) => String::from_str("Failed to parse update info: ").concat(
                m.as_str(),
            ),
            UpdateError::NotFound => String::from_str("No update found (HTTP 404)"),
            UpdateError::InvalidChannel(c) => String::from_str("Invalid update channel: ").concat(
                c.as_str(),
            ),
        }
    }
}

/// Reports whether an update is available on `channel`. A recognized channel
/// always answers `false` (there is no release feed to consult); anything
/// else is rejected as an invalid channel, carrying the channel text.
pub fn check_for_updates(channel: &str) -> (r: Result<bool, UpdateError>)
    ensures
        valid_channel(channel@) ==> r == Result::<bool, UpdateError>::Ok(false),
        !valid_channel(channel@) ==> match r {
            Err(UpdateError::InvalidChannel(c)) => c@ == channel@,
            _ => false,
        },
{
    if str_eq(channel, "stable") || str_eq(channel, "beta") || str_eq(channel, "daily") {
        Ok(false)
    } else {
        Err(UpdateError::InvalidChannel(channel.to_owned()))
    }
}

/// Installs an update from `channel`. A recognized channel succeeds doing
/// nothing (self-update is a stub); anything else is rejected as an invalid
/// channel, carrying the channel text.
pub fn perform_update(channel: &str) -> (r: Result<(), UpdateError>)
    ensures
        valid_channel(channel@) ==> r == Result::<(), UpdateError>::Ok(()),
        !valid_channel(channel@) ==> match r {
            Err(UpdateError::InvalidChannel(c)) => c@ == channel@,
            _ => false,
        },
{
    if str_eq(channel, "stable") || str_eq(channel, "beta") || str_eq(channel, "daily") {
        Ok(())
    } else {
        Err(UpdateError::InvalidChannel(channel.to_owned()))
    }
}

} // verus!
