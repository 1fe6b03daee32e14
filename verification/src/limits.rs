//! The memory settings that a ceiling in bytes turns into.

use vstd::prelude::*;

verus! {

/// One threshold of the backend's memory interface.
#[derive(Clone, Copy, Debug, PartialEq, Eq, Structural)]
pub enum MaxValue {
    /// No limit: the backend's `max`.
    Max,
    /// A number of bytes.
    Value(i64),
}

/// The four memory thresholds of a control group. A threshold that is `None`
/// is left as the backend has it.
#[derive(Clone, Copy, Debug, PartialEq, Eq)]
pub struct SetMemory {
    /// Memory that is reclaimed last.
    pub low: Option<MaxValue>,
    /// Where throttling begins.
    pub high: Option<MaxValue>,
    /// Memory that is never reclaimed.
    pub min: Option<MaxValue>,
    /// The hard ceiling.
    pub max: Option<MaxValue>,
}

/// The protected floor of every limited group: one byte, the least amount
/// that is not zero.
pub const MEMORY_FLOOR: i64 = 1;

/// The greatest ceiling the backend can be given.
pub const MEMORY_CEILING_MAX: u64 = 0x7fff_ffff_ffff_ffff;

/// The settings for a ceiling of `ceiling` bytes: the hard maximum is the
/// ceiling, the floor is [`MEMORY_FLOOR`], throttling is left unlimited, so
/// that it sets in only at the ceiling, and `low` is not touched.
pub open spec fn memory_plan(ceiling: u64) -> SetMemory {
    SetMemory {
        low: None,
        high: Some(MaxValue::Max),
        min: Some(MaxValue::Value(MEMORY_FLOOR)),
        max: Some(MaxValue::Value(ceiling as i64)),
    }
}

/// Whether the backend can hold `ceiling`: its thresholds are signed.
pub open spec fn ceiling_fits(ceiling: u64) -> bool {
    ceiling <= MEMORY_CEILING_MAX
}

/// Computes [`memory_plan`] for a ceiling that the backend can hold, and
/// nothing for one that it cannot.
pub fn memory_settings(ceiling: u64) -> (settings: Option<SetMemory>)
    ensures
        ceiling_fits(ceiling) ==> settings == Some(memory_plan(ceiling)),
        !ceiling_fits(ceiling) ==> settings is None,
        settings matches Some(s) ==> {
            &&& s.max == Some(MaxValue::Value(ceiling as i64))
            &&& ceiling as i64 == ceiling
            &&& s.min == Some(MaxValue::Value(1))
            &&& s.high == Some(MaxValue::Max)
            &&& s.low is None
        },
{
    if ceiling <= MEMORY_CEILING_MAX {
        Some(
            SetMemory {
                low: None,
                high: Some(MaxValue::Max),
                min: Some(MaxValue::Value(MEMORY_FLOOR)),
                max: Some(MaxValue::Value(ceiling as i64)),
            },
        )
    } else {
        None
    }
}

} // verus!
