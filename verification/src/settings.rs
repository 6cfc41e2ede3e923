//! User settings read once at startup; missing fields fall back to defaults.

use vstd::prelude::*;

verus! {

/// User settings of the widget.
#[derive(Debug, Clone, Copy)]
pub struct Settings {
    pub poll_interval_secs: u64,
    /// Notify when an online, discharging device drops to this percentage.
    pub low_battery_threshold: u8,
}

impl Default for Settings {
    fn default() -> (s: Self)
        ensures
            s.poll_interval_secs == 30,
            s.low_battery_threshold == 15,
    {
        Settings { poll_interval_secs: 30, low_battery_threshold: 15 }
    }
}

/// Shortest polling interval, in seconds.
pub const MIN_POLL_INTERVAL_SECS: u64 = 5;

/// The polling interval in seconds: the configured one, but at least five seconds.
pub fn poll_interval_secs(settings: &Settings) -> (secs: u64)
    ensures
        secs == if settings.poll_interval_secs >= MIN_POLL_INTERVAL_SECS {
            settings.poll_interval_secs
        } else {
            MIN_POLL_INTERVAL_SECS
        },
{
    if settings.poll_interval_secs >= MIN_POLL_INTERVAL_SECS {
        settings.poll_interval_secs
    } else {
        MIN_POLL_INTERVAL_SECS
    }
}

} // verus!
