//! How long a notification stays on screen.

use vstd::prelude::*;

verus! {

/// The lifetime of a notification, as the notification backend understands it.
#[derive(Clone, Copy, Debug, PartialEq, Eq, Structural)]
pub enum Timeout {
    /// Expires when the notification server decides.
    Default,
    /// Stays until the user closes it.
    Never,
    /// Expires after this many milliseconds.
    Milliseconds(u32),
}

impl Timeout {
    /// The timeout that a signed number of milliseconds stands for: a positive
    /// number is a lifetime, zero means never, a negative number means the
    /// server's default.
    pub open spec fn of_millis(millis: i32) -> Timeout {
        if millis > 0 {
            Timeout::Milliseconds(millis as u32)
        } else if millis < 0 {
            Timeout::Default
        } else {
            Timeout::Never
        }
    }

    /// The signed number that stands for a timeout: `-1` for the default, `0`
    /// for never, else the milliseconds kept to their low 32 bits.
    pub open spec fn millis(self) -> i32 {
        match self {
            Timeout::Default => -1i32,
            Timeout::Never => 0i32,
            Timeout::Milliseconds(ms) => ms as i32,
        }
    }

    /// The timeout that a property value of `value` milliseconds stands for.
    /// The value is first cut to its low 32 bits.
    pub open spec fn of_value(value: i64) -> Timeout {
        Timeout::of_millis(value as i32)
    }

    /// Converts the integer of a `timeout` property.
    pub fn from_value(value: i64) -> (timeout: Timeout)
        ensures
            timeout == Timeout::of_value(value),
    {
        let millis: i32 = #[verifier::truncate] (value as i32);
        backend_timeout_from(millis)
    }
}

/// Calls `notify_rust::Timeout::from(i32)`, which compares the number with zero:
/// greater gives `Milliseconds` of the same number, less gives `Default`, equal
/// gives `Never`. The result is handed back variant by variant.
#[verifier::external_body]
pub(crate) fn backend_timeout_from(millis: i32) -> (timeout: Timeout)
    ensures
        timeout == Timeout::of_millis(millis),
{
    match notify_rust::Timeout::from(millis) {
        notify_rust::Timeout::Default => Timeout::Default,
        notify_rust::Timeout::Never => Timeout::Never,
        notify_rust::Timeout::Milliseconds(ms) => Timeout::Milliseconds(ms),
    }
}

/// Calls `i32::from(notify_rust::Timeout)`, which gives `-1` for `Default`, `0`
/// for `Never` and the milliseconds cast to `i32` for `Milliseconds`.
#[verifier::external_body]
pub(crate) fn backend_timeout_into(timeout: Timeout) -> (millis: i32)
    ensures
        millis == timeout.millis(),
{
    i32::from(
        match timeout {
            Timeout::Default => notify_rust::Timeout::Default,
            Timeout::Never => notify_rust::Timeout::Never,
            Timeout::Milliseconds(ms) => notify_rust::Timeout::Milliseconds(ms),
        },
    )
}

} // verus!
