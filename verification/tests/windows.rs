use sat_visibility::report::emits;
use sat_visibility::satutil::{get_look_angle, get_ssp, MIN_ELEVATION};
use sat_visibility::window::{visibility_windows, Window};

#[test]
fn threshold_is_fifteen_degrees() {
    assert_eq!(MIN_ELEVATION, 15_000_000);
    assert!(emits(15_000_000, MIN_ELEVATION, None, 1));
    assert!(!emits(14_999_999, MIN_ELEVATION, None, 1));
    assert!(emits(90_000_000, MIN_ELEVATION, None, 1));
    assert!(!emits(-90_000_000, MIN_ELEVATION, None, 1));
}

#[test]
fn unbound_queries_return() {
    get_look_angle();
    get_ssp();
}

#[test]
fn empty_series_has_no_window() {
    assert_eq!(visibility_windows(&Vec::new(), MIN_ELEVATION), Vec::<Window>::new());
}

#[test]
fn series_below_threshold_has_no_window() {
    let series: Vec<i64> = vec![-5_000_000, 0, 14_999_999, 3_000_000];
    assert_eq!(visibility_windows(&series, MIN_ELEVATION), Vec::<Window>::new());
}

#[test]
fn one_upward_and_one_downward_crossing_give_one_window() {
    let series: Vec<i64> = vec![
        -20_000_000,
        2_500_000,
        14_999_999,
        15_000_000,
        41_000_000,
        62_500_000,
        15_000_001,
        14_000_000,
        -3_000_000,
    ];
    assert_eq!(visibility_windows(&series, MIN_ELEVATION), vec![Window { rise: 3, set: 6 }]);
}

#[test]
fn windows_at_both_ends_are_reported() {
    let series: Vec<i64> = vec![20_000_000, 1, 2, 30_000_000, 30_000_000, 3, 16_000_000];
    assert_eq!(
        visibility_windows(&series, MIN_ELEVATION),
        vec![Window { rise: 0, set: 0 }, Window { rise: 3, set: 4 }, Window { rise: 6, set: 6 }]
    );
}

#[test]
fn series_above_threshold_is_one_window() {
    let series: Vec<i64> = vec![10, 11, 12, 13];
    assert_eq!(visibility_windows(&series, 10), vec![Window { rise: 0, set: 3 }]);
}

#[test]
fn threshold_is_a_parameter() {
    let series: Vec<i64> = vec![0, 5_000_000, 10_000_000, 5_000_000, 0];
    assert_eq!(visibility_windows(&series, 5_000_000), vec![Window { rise: 1, set: 3 }]);
    assert_eq!(visibility_windows(&series, 10_000_000), vec![Window { rise: 2, set: 2 }]);
    assert_eq!(visibility_windows(&series, 10_000_001), Vec::<Window>::new());
}
