//! Calendar arithmetic on UTC timestamps, measured in milliseconds since the
//! Unix epoch (sub-second precision). A calendar day is the range of
//! 86,400,000 milliseconds that starts at 00:00:00 UTC; the derived task
//! views ("today", "upcoming") are defined by inclusive windows of such days.

use vstd::prelude::*;

verus! {

/// Milliseconds in one UTC calendar day.
pub const MILLIS_PER_DAY: i64 = 86_400_000;

/// Latest timestamp for which the upcoming window can still be computed
/// without overflowing `i64` (eight days must fit above the day start).
pub const MAX_WINDOW_TIME: i64 = 0x7fff_ffff_ffff_ffff - 8 * 86_400_000;

/// 00:00:00 UTC of the calendar day containing `t`.
pub open spec fn spec_day_start(t: int) -> int {
    t - (t % 86_400_000)
}

/// `due` lies within the calendar day of `now`, from 00:00:00.000 through
/// 23:59:59.999 UTC inclusive.
pub open spec fn in_today_window(due: int, now: int) -> bool {
    spec_day_start(now) <= due <= spec_day_start(now) + 86_400_000 - 1
}

/// `due` lies within the seven full calendar days strictly after the day of
/// `now`: from tomorrow 00:00:00.000 through the seventh day 23:59:59.999
/// UTC.
pub open spec fn in_upcoming_window(due: int, now: int) -> bool {
    spec_day_start(now) + 86_400_000 <= due <= spec_day_start(now) + 8 * 86_400_000 - 1
}

/// `due` is strictly in the past at time `now`.
pub open spec fn overdue_at(due: int, now: int) -> bool {
    due < now
}

/// 00:00:00 UTC of the calendar day containing `t`.
pub fn day_start_of(t: i64) -> (r: i64)
    requires
        0 <= t,
    ensures
        r == spec_day_start(t as int),
        0 <= r <= t,
{
    t - t % MILLIS_PER_DAY
}

/// Whether a due date falls inside today's window at time `now`.
pub fn due_in_today(due: i64, now: i64) -> (r: bool)
    requires
        0 <= now <= MAX_WINDOW_TIME,
    ensures
        r == in_today_window(due as int, now as int),
{
    let start = day_start_of(now);
    start <= due && due <= start + (MILLIS_PER_DAY - 1)
}

/// Whether a due date falls inside the upcoming window at time `now`.
pub fn due_in_upcoming(due: i64, now: i64) -> (r: bool)
    requires
        0 <= now <= MAX_WINDOW_TIME,
    ensures
        r == in_upcoming_window(due as int, now as int),
{
    let start = day_start_of(now);
    start + MILLIS_PER_DAY <= due && due <= start + (8 * MILLIS_PER_DAY - 1)
}

} // verus!
