use vstd::prelude::*;

verus! {

/// Length in seconds of one full day/night cycle of the game world.
pub const CYCLE_SECONDS: u32 = 7200;

/// Seconds in one hour.
pub const HOUR_SECONDS: u32 = 3600;

/// Seconds in one UTC day.
pub const DAY_SECONDS: u32 = 86400;

/// One of the four phases of the day/night cycle.
#[derive(Clone, Copy, Debug, PartialEq, Eq, Structural)]
pub enum CurrentTimePeriod {
    Day,
    Dusk,
    Night,
    Dawn,
}

/// The upper bounds (inclusive) of the Day, Dusk, Night and Dawn phases, in
/// seconds after the start of a cycle.
pub type TimeThresholds = (i64, i64, i64, i64);

/// The phase in which a moment `elapsed` seconds into the cycle falls: the
/// first threshold that is not below `elapsed` names it, and past the last
/// threshold the cycle is back at Day.
pub open spec fn phase_of(elapsed: int, t: TimeThresholds) -> CurrentTimePeriod {
    if elapsed <= t.0 {
        CurrentTimePeriod::Day
    } else if elapsed <= t.1 {
        CurrentTimePeriod::Dusk
    } else if elapsed <= t.2 {
        CurrentTimePeriod::Night
    } else if elapsed <= t.3 {
        CurrentTimePeriod::Dawn
    } else {
        CurrentTimePeriod::Day
    }
}

/// Thresholds are usable when they ascend strictly and end inside the cycle.
pub open spec fn thresholds_ascending(t: TimeThresholds) -> bool {
    0 <= t.0 < t.1 < t.2 < t.3 < CYCLE_SECONDS
}

/// Seconds since the cycle began, for a UTC moment `secs_of_day` seconds after
/// midnight: the cycle starts on the odd UTC hours.
pub open spec fn cycle_elapsed(secs_of_day: int) -> int {
    (secs_of_day + HOUR_SECONDS) % (CYCLE_SECONDS as int)
}

/// Phase for a moment `seconds_between` seconds after the start of a cycle.
pub fn time_period(seconds_between: &i64, time_thresholds: TimeThresholds) -> (r: CurrentTimePeriod)
    ensures
        r == phase_of(*seconds_between as int, time_thresholds),
{
    if *seconds_between <= time_thresholds.0 {
        return CurrentTimePeriod::Day;
    }
    if *seconds_between <= time_thresholds.1 {
        return CurrentTimePeriod::Dusk;
    }
    if *seconds_between <= time_thresholds.2 {
        return CurrentTimePeriod::Night;
    }
    if *seconds_between <= time_thresholds.3 {
        return CurrentTimePeriod::Dawn;
    }
    CurrentTimePeriod::Day
}

/// Thresholds of the central Tyrian regions.
pub fn tyrian_time_thresholds() -> (r: TimeThresholds)
    ensures
        r == (2400i64, 2700i64, 5100i64, 5400i64),
        thresholds_ascending(r),
{
    (2400, 2700, 5100, 5400)
}

/// Thresholds of the Cantha regions.
pub fn canthan_time_thresholds() -> (r: TimeThresholds)
    ensures
        r == (2100i64, 2400i64, 5700i64, 6000i64),
        thresholds_ascending(r),
{
    (2100, 2400, 5700, 6000)
}

/// The even hour at or before `hour`.
pub fn last_even_hour(hour: u32) -> (r: u32)
    ensures
        r == hour - hour % 2,
        r % 2 == 0,
        r <= hour,
{
    if hour % 2 == 1 {
        hour - 1
    } else {
        hour
    }
}

/// Seconds since the start of the current cycle, for a UTC moment
/// `secs_of_day` seconds after midnight. The cycle's clock runs one hour ahead
/// of UTC and starts anew on each even hour of that clock.
pub fn seconds_since_cycle_start(secs_of_day: u32) -> (r: i64)
    requires
        secs_of_day < DAY_SECONDS,
    ensures
        r == cycle_elapsed(secs_of_day as int),
        0 <= r < CYCLE_SECONDS,
{
    let shifted: u32 = (secs_of_day + HOUR_SECONDS) % DAY_SECONDS;
    let hour: u32 = shifted / HOUR_SECONDS;
    let start: u32 = last_even_hour(hour) * HOUR_SECONDS;
    assert(shifted - start == (secs_of_day + 3600) % 7200) by (nonlinear_arith)
        requires
            shifted == (secs_of_day + 3600) % 86400,
            hour == shifted / 3600,
            start == (hour - hour % 2) * 3600,
            secs_of_day < 86400,
    ;
    (shifted - start) as i64
}

/// Relies on chrono's `Utc::now` for the current moment and on
/// `Timelike::num_seconds_from_midnight`, documented to map every time of day
/// to a number below 86400.
#[verifier::external_body]
fn utc_seconds_of_day() -> (r: u32)
    ensures
        r < DAY_SECONDS,
{
    chrono::Timelike::num_seconds_from_midnight(&chrono::Utc::now())
}

/// Phase of the cycle now, computed from the UTC clock and `thresholds`.
pub fn current_time_period_with_default_detection(thresholds: TimeThresholds) -> (r:
    CurrentTimePeriod)
    ensures
        exists|s: int| 0 <= s < DAY_SECONDS && r == phase_of(cycle_elapsed(s), thresholds),
{
    let secs = utc_seconds_of_day();
    let elapsed = seconds_since_cycle_start(secs);
    time_period(&elapsed, thresholds)
}

/// Within one cycle every second falls in exactly one phase, and a second
/// equal to a threshold belongs to the phase that the threshold ends.
pub proof fn lemma_phases_partition_cycle(elapsed: int, t: TimeThresholds)
    requires
        thresholds_ascending(t),
        0 <= elapsed < CYCLE_SECONDS,
    ensures
        (phase_of(elapsed, t) == CurrentTimePeriod::Day) == (elapsed <= t.0 || t.3 < elapsed),
        (phase_of(elapsed, t) == CurrentTimePeriod::Dusk) == (t.0 < elapsed <= t.1),
        (phase_of(elapsed, t) == CurrentTimePeriod::Night) == (t.1 < elapsed <= t.2),
        (phase_of(elapsed, t) == CurrentTimePeriod::Dawn) == (t.2 < elapsed <= t.3),
        phase_of(t.0 as int, t) == CurrentTimePeriod::Day,
        phase_of(t.1 as int, t) == CurrentTimePeriod::Dusk,
        phase_of(t.2 as int, t) == CurrentTimePeriod::Night,
        phase_of(t.3 as int, t) == CurrentTimePeriod::Dawn,
{
}

} // verus!
