//! Checked limits of the compact pool representation.

use vstd::prelude::*;
use crate::error::BuildError;

verus! {

/// Refuses a value above the largest one a compact field can hold.
pub fn ensure(field: &'static str, value: u64, max: u64) -> (r: Result<(), BuildError>)
    ensures
        value <= max ==> r is Ok,
        value > max ==> r == Err::<(), BuildError>(BuildError::CapacityExceeded { field, value, max }),
{
    if value > max {
        Err(BuildError::CapacityExceeded { field, value, max })
    } else {
        Ok(())
    }
}

/// A score-up value as stored: negatives become 0, then the cap applies.
pub open spec fn score_value(value: i64, limit: Option<u32>) -> int {
    let v = if value < 0 { 0 } else { value as int };
    match limit {
        Some(l) => if v < l { v } else { l as int },
        None => v,
    }
}

/// The stored score-up value, or the error refusing it.
pub open spec fn spec_score(value: i64, limit: Option<u32>, field: &'static str) -> Result<u8, BuildError> {
    if score_value(value, limit) <= 255 {
        Ok(score_value(value, limit) as u8)
    } else {
        Err(BuildError::CapacityExceeded { field, value: score_value(value, limit) as u64, max: 255 })
    }
}

/// Stores a score-up value in 8 bits: negatives become 0, values above the
/// limit become the limit, and a value still above 255 is refused.
pub fn score(value: i64, limit: Option<u32>, field: &'static str) -> (r: Result<u8, BuildError>)
    ensures
        r == spec_score(value, limit, field),
{
    let v: u64 = if value < 0 { 0 } else { value as u64 };
    let v: u64 = match limit {
        Some(l) => if v < l as u64 { v } else { l as u64 },
        None => v,
    };
    match ensure(field, v, 255) {
        Ok(()) => Ok(v as u8),
        Err(e) => Err(e),
    }
}

} // verus!
