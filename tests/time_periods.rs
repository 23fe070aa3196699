use reshade_preset_switcher::context::{canthan_time_maps, time_thresholds_for_map};
use reshade_preset_switcher::time_period::{
    canthan_time_thresholds, current_time_period_with_default_detection, last_even_hour,
    seconds_since_cycle_start, time_period, tyrian_time_thresholds, CurrentTimePeriod,
};

#[test]
fn every_second_has_one_phase() {
    for t in [tyrian_time_thresholds(), canthan_time_thresholds()] {
        for s in 0i64..7200 {
            let p = time_period(&s, t);
            let expected = if s <= t.0 || s > t.3 {
                CurrentTimePeriod::Day
            } else if s <= t.1 {
                CurrentTimePeriod::Dusk
            } else if s <= t.2 {
                CurrentTimePeriod::Night
            } else {
                CurrentTimePeriod::Dawn
            };
            assert_eq!(p, expected, "second {}", s);
        }
    }
}

#[test]
fn thresholds_are_inclusive() {
    let t = tyrian_time_thresholds();
    assert_eq!(t, (2400, 2700, 5100, 5400));
    assert_eq!(time_period(&2400, t), CurrentTimePeriod::Day);
    assert_eq!(time_period(&2401, t), CurrentTimePeriod::Dusk);
    assert_eq!(time_period(&2700, t), CurrentTimePeriod::Dusk);
    assert_eq!(time_period(&5100, t), CurrentTimePeriod::Night);
    assert_eq!(time_period(&5400, t), CurrentTimePeriod::Dawn);
    assert_eq!(time_period(&5401, t), CurrentTimePeriod::Day);
    assert_eq!(time_period(&0, t), CurrentTimePeriod::Day);
    assert_eq!(time_period(&7199, t), CurrentTimePeriod::Day);
    let c = canthan_time_thresholds();
    assert_eq!(c, (2100, 2400, 5700, 6000));
    assert_eq!(time_period(&2101, c), CurrentTimePeriod::Dusk);
    assert_eq!(time_period(&6000, c), CurrentTimePeriod::Dawn);
}

#[test]
fn cycle_starts_on_odd_utc_hours() {
    assert_eq!(seconds_since_cycle_start(0), 3600);
    assert_eq!(seconds_since_cycle_start(3600), 0);
    assert_eq!(seconds_since_cycle_start(3661), 61);
    assert_eq!(seconds_since_cycle_start(7199), 3599);
    assert_eq!(seconds_since_cycle_start(86399), 3599);
    assert_eq!(seconds_since_cycle_start(82800), 0);
    assert_eq!(last_even_hour(7), 6);
    assert_eq!(last_even_hour(8), 8);
    assert_eq!(last_even_hour(0), 0);
}

#[test]
fn clock_detection_stays_in_range() {
    // thresholds past the end of the cycle leave only the first phase
    assert_eq!(current_time_period_with_default_detection((7200, 7300, 7400, 7500)), CurrentTimePeriod::Day);
    // thresholds below every second leave only the wrap to Day
    assert_eq!(current_time_period_with_default_detection((-4, -3, -2, -1)), CurrentTimePeriod::Day);
    // only Night from the first second on
    assert_eq!(current_time_period_with_default_detection((-2, -1, 8000, 9000)), CurrentTimePeriod::Night);
}

#[test]
fn region_thresholds_by_map() {
    assert_eq!(canthan_time_maps(), vec![1442, 1438, 1452, 1422, 1490, 1428, 1465, 1593, 1595]);
    assert_eq!(time_thresholds_for_map(1452), canthan_time_thresholds());
    assert_eq!(time_thresholds_for_map(50), tyrian_time_thresholds());
}
