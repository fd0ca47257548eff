use vstd::prelude::*;

use crate::error::InventoryError;

verus! {

/// Largest end value accepted by the default clock-time policy: times are
/// encoded in a 24-hour format (e.g. `1300` for 1:00 PM), so any end value at
/// or beyond `2400` is outside the representable day.
pub const MAX_CLOCK_END: u64 = 2400;

/// True when the optional domain bound is enabled and `end` lies at or beyond it.
pub open spec fn exceeds_bound(bound: Option<u64>, end: u64) -> bool {
    bound matches Some(m) && end >= m
}

/// True when a caller-supplied range is accepted under the given bound policy:
/// it is well-formed (`start < end`) and, where a bound is configured, its end
/// lies below the bound.
pub open spec fn range_ok(start: u64, end: u64, bound: Option<u64>) -> bool {
    start < end && !exceeds_bound(bound, end)
}

/// Validates that a given time range is logically correct and, where a bound
/// is supplied, within that bound.
///
/// The domain bound is a pluggable policy: callers tracking non-clock time
/// domains pass `None` and only well-formedness is checked.
///
/// # Returns
/// - `Ok(())` if the time range is valid.
/// - `Err(InventoryError::InvalidTimeRange)` if `end_time` is not greater than `start_time`.
/// - `Err(InventoryError::Internal)` if `end_time` lies at or beyond the bound.
pub fn validate_time_range_bounded(start_time: u64, end_time: u64, max_end: Option<u64>) -> (r:
    Result<(), InventoryError>)
    ensures
        end_time <= start_time ==> r == Err::<(), InventoryError>(InventoryError::InvalidTimeRange),
        start_time < end_time && exceeds_bound(max_end, end_time) ==> r is Err
            && r->Err_0 is Internal,
        range_ok(start_time, end_time, max_end) ==> r == Ok::<(), InventoryError>(()),
{
    if end_time <= start_time {
        return Err(InventoryError::InvalidTimeRange);
    }
    if let Some(m) = max_end {
        if end_time >= m {
            return Err(InventoryError::Internal("Time must be less than the configured bound".to_string()));
        }
    }
    Ok(())
}

/// Validates a time range under the default 24-hour clock policy.
///
/// # Returns
/// - `Ok(())` if the time range is valid.
/// - `Err(InventoryError::InvalidTimeRange)` if `end_time` is not greater than `start_time`.
/// - `Err(InventoryError::Internal)` if `end_time` is at or beyond `MAX_CLOCK_END`.
pub fn validate_time_range(start_time: u64, end_time: u64) -> (r: Result<(), InventoryError>)
    ensures
        end_time <= start_time ==> r == Err::<(), InventoryError>(InventoryError::InvalidTimeRange),
        start_time < end_time && end_time >= MAX_CLOCK_END ==> r is Err && r->Err_0 is Internal,
        start_time < end_time && end_time < MAX_CLOCK_END ==> r == Ok::<(), InventoryError>(()),
{
    validate_time_range_bounded(start_time, end_time, Some(MAX_CLOCK_END))
}

} // verus!
