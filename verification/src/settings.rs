//! What the user can configure.

use vstd::prelude::*;

use crate::history::SECOND;
use crate::theme::ThemeName;

verus! {

/// Default polling interval in milliseconds.
pub const DEFAULT_POLL_MS: u64 = 1000;

/// Default history window in seconds.
pub const DEFAULT_WINDOW_SECS: u64 = 5 * 60;

/// The nanoseconds in a millisecond.
pub const MILLISECOND: u128 = 1_000_000;

/// Settings of the UI and the poller.
#[derive(Clone, Copy, Debug, PartialEq, Eq, Structural)]
pub struct Settings {
    /// History window length in seconds.
    pub window_seconds: u64,
    /// Polling interval in milliseconds.
    pub poll_ms: u64,
    /// Visual theme for chart and gauge colors.
    pub theme: ThemeName,
}

impl Default for Settings {
    fn default() -> (settings: Self)
        ensures
            settings.window_seconds == 300,
            settings.poll_ms == 1000,
            settings.theme == ThemeName::Classic,
    {
        Settings {
            window_seconds: DEFAULT_WINDOW_SECS,
            poll_ms: DEFAULT_POLL_MS,
            theme: ThemeName::Classic,
        }
    }
}

/// A setting, or one where it is zero.
pub open spec fn at_least_one(value: u64) -> u64 {
    if value > 1 {
        value
    } else {
        1
    }
}

impl Settings {
    /// The history window in nanoseconds: at least one second.
    pub fn window(&self) -> (window: u128)
        ensures
            window == at_least_one(self.window_seconds) * SECOND,
    {
        let seconds: u64 = if self.window_seconds > 1 {
            self.window_seconds
        } else {
            1
        };
        seconds as u128 * SECOND
    }

    /// The polling interval in nanoseconds: at least one millisecond.
    pub fn poll_interval(&self) -> (interval: u128)
        ensures
            interval == at_least_one(self.poll_ms) * MILLISECOND,
    {
        let millis: u64 = if self.poll_ms > 1 {
            self.poll_ms
        } else {
            1
        };
        millis as u128 * MILLISECOND
    }
}

} // verus!
