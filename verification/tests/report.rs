use sat_visibility::angle::LookAngle;
use sat_visibility::epoch::Epoch;
use sat_visibility::report::{emits, visibility_record, SubPoint, VisibilityRecord};

#[test]
fn emission_needs_threshold_and_matching_target() {
    assert!(emits(15_000_000, 15_000_000, None, 25_544));
    assert!(!emits(14_999_999, 15_000_000, None, 25_544));
    assert!(emits(30_000_000, 15_000_000, Some(25_544), 25_544));
    assert!(!emits(30_000_000, 15_000_000, Some(25_545), 25_544));
    assert!(!emits(-1, 0, Some(25_544), 25_544));
}

#[test]
fn sub_point_wraps_longitude_and_keeps_the_rest() {
    assert_eq!(
        SubPoint::new(51_500_000, 190_000_000, 408_000),
        Some(SubPoint { latitude: 51_500_000, longitude: -170_000_000, altitude: 408_000 })
    );
    assert_eq!(
        SubPoint::new(-90_000_000, 180_000_000, -5),
        Some(SubPoint { latitude: -90_000_000, longitude: -180_000_000, altitude: -5 })
    );
    assert_eq!(
        SubPoint::new(90_000_000, -112_074_000, 0),
        Some(SubPoint { latitude: 90_000_000, longitude: -112_074_000, altitude: 0 })
    );
}

#[test]
fn sub_point_rejects_latitude_beyond_a_pole() {
    assert_eq!(SubPoint::new(90_000_001, 0, 0), None);
    assert_eq!(SubPoint::new(-90_000_001, 0, 0), None);
}

#[test]
fn record_is_made_for_a_visible_sample_only() {
    let epoch = Epoch { seconds: 1_700_000_000, nanos: 0 };
    let sub_point = SubPoint::new(10_000_000, 20_000_000, 550_000).unwrap();
    let high = LookAngle::new(123_000_000, 15_000_000, 1_200_000, -3_000).unwrap();
    let low = LookAngle::new(123_000_000, 14_999_999, 1_200_000, -3_000).unwrap();
    assert_eq!(
        visibility_record(epoch, 1, 25_544, high, sub_point, 15_000_000, None),
        Some(VisibilityRecord { epoch, observer: 1, target: 25_544, look: high, sub_point })
    );
    assert_eq!(visibility_record(epoch, 1, 25_544, low, sub_point, 15_000_000, None), None);
    assert_eq!(visibility_record(epoch, 1, 25_544, high, sub_point, 15_000_000, Some(7)), None);
    assert_eq!(
        visibility_record(epoch, 0, 7, high, sub_point, 15_000_000, Some(7)),
        Some(VisibilityRecord { epoch, observer: 0, target: 7, look: high, sub_point })
    );
}
