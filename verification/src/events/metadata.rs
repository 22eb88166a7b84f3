//! Whether travel between two events is physically possible, and how much
//! time it lacks.

use vstd::prelude::*;
use crate::time::{TimeDelta, trunc_div};

verus! {

/// Whether travel that needs `required_millis` cannot be done in
/// `actual_millis`, comparing whole seconds: it cannot when no whole second
/// elapsed, or when more whole seconds are needed than elapsed.
pub open spec fn travel_impossible(actual_millis: int, required_millis: int) -> bool {
    let actual = trunc_div(actual_millis, 1000);
    let required = trunc_div(required_millis, 1000);
    actual <= 0 || required > actual
}

/// Whether travel needing `minimum_required_time` cannot be done within
/// `actual_time_gap`: the ratio of required to elapsed whole seconds
/// exceeds 1, or no whole second elapsed.
pub fn is_impossible_travel(actual_time_gap: TimeDelta, minimum_required_time: TimeDelta) -> (b: bool)
    ensures
        b == travel_impossible(actual_time_gap.millis as int, minimum_required_time.millis as int),
{
    let actual = actual_time_gap.num_seconds();
    let required = minimum_required_time.num_seconds();
    actual <= 0 || required > actual
}

/// The travel time that was missing: how much the required time exceeds
/// the actual gap, or nothing when it does not.
pub fn time_deficit(actual_time_gap: TimeDelta, minimum_required_time: TimeDelta) -> (d: TimeDelta)
    requires
        minimum_required_time.millis > actual_time_gap.millis ==> minimum_required_time.millis - actual_time_gap.millis <= i64::MAX,
    ensures
        d.millis == if minimum_required_time.millis > actual_time_gap.millis {
            minimum_required_time.millis - actual_time_gap.millis
        } else {
            0
        },
{
    if minimum_required_time.millis > actual_time_gap.millis {
        TimeDelta::milliseconds(minimum_required_time.millis - actual_time_gap.millis)
    } else {
        TimeDelta::zero()
    }
}

} // verus!
