//! Points in time, counted in whole seconds since the Unix epoch.

use vstd::prelude::*;

verus! {

/// Length of one subscription period: 31 days, in seconds.
pub const SUBSCRIPTION_PERIOD_SECS: u64 = 2_678_400;

/// A point in time as a number of non-leap seconds since 1970-01-01 00:00:00 UTC.
#[derive(Clone, Copy, Debug, PartialEq, Eq, Structural)]
pub struct Timestamp {
    pub secs: i64,
}

impl Timestamp {
    pub fn new(secs: i64) -> (r: Timestamp)
        ensures
            r.secs == secs,
    {
        Timestamp { secs }
    }

    /// The moment `period` seconds after `self`, as an unbounded integer.
    pub open spec fn plus(self, period: u64) -> int {
        self.secs + period
    }

    /// `self` moved forward by `period` seconds, or `None` when that moment
    /// cannot be represented.
    pub fn checked_add(self, period: u64) -> (r: Option<Timestamp>)
        ensures
            self.plus(period) <= i64::MAX ==> r is Some && r->0.secs == self.plus(period),
            self.plus(period) > i64::MAX ==> r is None,
    {
        let sum: i128 = self.secs as i128 + period as i128;
        if sum <= i64::MAX as i128 {
            Some(Timestamp { secs: sum as i64 })
        } else {
            None
        }
    }
}

/// The period that starts at `now` and lasts one subscription period.
pub open spec fn period_starting_at(now: Timestamp) -> (Timestamp, Timestamp) {
    (now, Timestamp { secs: now.plus(SUBSCRIPTION_PERIOD_SECS) as i64 })
}

/// The subscription period that a renewal made at `now` would open: from `now`
/// to 31 days later.
pub fn subscription_period(now: Timestamp) -> (r: (Timestamp, Timestamp))
    requires
        now.plus(SUBSCRIPTION_PERIOD_SECS) <= i64::MAX,
    ensures
        r == period_starting_at(now),
        r.0 == now,
        r.1.secs == now.secs + SUBSCRIPTION_PERIOD_SECS,
{
    (now, Timestamp { secs: now.secs + SUBSCRIPTION_PERIOD_SECS as i64 })
}

/// The latest moment that `chrono` can give as a Unix timestamp.
///
/// `DateTime::timestamp` computes `(days - 719_163) * 86_400 + seconds`, where
/// `days` is an `i32` and `seconds` a `u32`; this is the largest value that
/// formula can take.
pub open spec fn latest_clock_reading() -> int {
    (i32::MAX - 719_163) * 86_400 + u32::MAX
}

/// Reads the system clock with `std::time::SystemTime::now`, turns the
/// reading into a `chrono::DateTime<Utc>` and keeps the Unix timestamp that
/// `DateTime::timestamp` gives for it. A clock that stands before 1970 gives
/// a negative timestamp. Which moment is read is up to the clock; the one
/// claim made is that it is no later than any timestamp that
/// `DateTime::timestamp` can compute.
#[verifier::external_body]
pub(crate) fn current_time() -> (r: Timestamp)
    ensures
        r.secs <= latest_clock_reading(),
{
    Timestamp {
        secs: chrono::DateTime::<chrono::Utc>::from(std::time::SystemTime::now()).timestamp(),
    }
}

/// The subscription period that starts at the current time. The answer is
/// always `Some`: the clock never shows a moment so late that the end of the
/// period could not be represented.
pub fn get_subscription_period() -> (r: Option<(Timestamp, Timestamp)>)
    ensures
        r matches Some(period) && period.0.secs <= latest_clock_reading() && period
            == period_starting_at(period.0) && period.1.secs == period.0.secs
            + SUBSCRIPTION_PERIOD_SECS,
{
    let now = current_time();
    match now.checked_add(SUBSCRIPTION_PERIOD_SECS) {
        Some(end) => Some((now, end)),
        None => None,
    }
}

} // verus!
