use crate::angle::{floor_mod, wrap_neg_180_180, LookAngle, FULL_TURN, HALF_TURN, QUARTER_TURN};
use crate::epoch::Epoch;
use vstd::prelude::*;

verus! {

/// The point of the ellipsoid below a target: latitude and east longitude in
/// millionths of a degree, and the target's altitude above it in metres.
#[derive(Clone, Copy, Debug, PartialEq, Eq, Structural)]
pub struct SubPoint {
    pub latitude: i64,
    pub longitude: i64,
    pub altitude: i64,
}

impl SubPoint {
    /// Latitude lies in `[-90, 90]` degrees and longitude in `[-180, 180)`.
    pub open spec fn wf(&self) -> bool {
        &&& -QUARTER_TURN <= self.latitude <= QUARTER_TURN
        &&& -HALF_TURN <= self.longitude < HALF_TURN
    }

    /// The sub-point that solved values stand for: the longitude wrapped
    /// into `[-180, 180)` degrees, the rest as solved. A latitude beyond a
    /// pole stands for none.
    pub open spec fn solved(latitude: i64, longitude: i64, altitude: i64) -> Option<SubPoint> {
        if -QUARTER_TURN <= latitude <= QUARTER_TURN {
            Some(
                SubPoint {
                    latitude,
                    longitude: (floor_mod(longitude + HALF_TURN, FULL_TURN as int) - HALF_TURN) as i64,
                    altitude,
                },
            )
        } else {
            None
        }
    }

    /// A sub-point from solved values.
    pub fn new(latitude: i64, longitude: i64, altitude: i64) -> (r: Option<SubPoint>)
        ensures
            r == SubPoint::solved(latitude, longitude, altitude),
            r matches Some(point) ==> point.wf(),
    {
        if latitude < -QUARTER_TURN || latitude > QUARTER_TURN {
            None
        } else {
            Some(SubPoint { latitude, longitude: wrap_neg_180_180(longitude), altitude })
        }
    }
}

/// One line of a scan's report: at `epoch` the target stood at `look` for the
/// observer, above `sub_point`.
#[derive(Clone, Copy, Debug, PartialEq, Eq, Structural)]
pub struct VisibilityRecord {
    pub epoch: Epoch,
    pub observer: usize,
    pub target: u64,
    pub look: LookAngle,
    pub sub_point: SubPoint,
}

/// A sample is reported when the target stands at or above the threshold
/// and, where the report is limited to one target, is that target.
pub open spec fn is_reported(elevation: i64, threshold: i64, only: Option<u64>, target: u64) -> bool {
    elevation >= threshold && (only is None || only == Some(target))
}

/// Whether a sample is reported.
pub fn emits(elevation: i64, threshold: i64, only: Option<u64>, target: u64) -> (r: bool)
    ensures
        r == is_reported(elevation, threshold, only, target),
{
    if elevation < threshold {
        return false;
    }
    match only {
        Some(id) => id == target,
        None => true,
    }
}

/// The record of a sample, where it is reported, and `None` where it is not.
pub fn visibility_record(
    epoch: Epoch,
    observer: usize,
    target: u64,
    look: LookAngle,
    sub_point: SubPoint,
    threshold: i64,
    only: Option<u64>,
) -> (r: Option<VisibilityRecord>)
    ensures
        r == if is_reported(look.elevation, threshold, only, target) {
            Some(VisibilityRecord { epoch, observer, target, look, sub_point })
        } else {
            None
        },
{
    if emits(look.elevation, threshold, only, target) {
        Some(VisibilityRecord { epoch, observer, target, look, sub_point })
    } else {
        None
    }
}

} // verus!
