//! Half-open ranges of received data in a TP stream, with the merge rule of
//! the reassembler.
use vstd::prelude::*;

verus! {

/// Describes a range of received data in a TP stream: the half-open byte
/// interval `[start, end)` of the reassembled payload.
#[derive(Debug, Copy, Clone, Eq, PartialEq, Ord, PartialOrd, Hash, Structural)]
pub struct TpRange {
    /// Offset of the section.
    pub start: u32,
    /// Offset + length of the section.
    pub end: u32,
}

/// Whether `value` lies within the closed span of the section.
pub open spec fn spec_tp_range_connected(r: TpRange, value: u32) -> bool {
    r.start <= value && value <= r.end
}

/// The merge of two sections, if either holds a bound of the other: the
/// componentwise minimum and maximum. Two sections that neither overlap nor
/// touch do not merge.
pub open spec fn spec_tp_range_merge(a: TpRange, b: TpRange) -> Option<TpRange> {
    if spec_tp_range_connected(a, b.start) || spec_tp_range_connected(a, b.end)
        || spec_tp_range_connected(b, a.start) || spec_tp_range_connected(b, a.end) {
        Some(
            TpRange {
                start: if a.start <= b.start {
                    a.start
                } else {
                    b.start
                },
                end: if a.end >= b.end {
                    a.end
                } else {
                    b.end
                },
            },
        )
    } else {
        None
    }
}

impl TpRange {
    /// Returns whether the value is contained within the closed span of the
    /// section.
    fn is_value_connected(&self, value: u32) -> (r: bool)
        ensures
            r == spec_tp_range_connected(*self, value),
    {
        self.start <= value && self.end >= value
    }

    /// Combines both sections if they overlap or touch; the merged section's
    /// bounds are the componentwise minimum and maximum.
    pub fn merge(&self, other: TpRange) -> (r: Option<TpRange>)
        ensures
            r == spec_tp_range_merge(*self, other),
    {
        if self.is_value_connected(other.start) || self.is_value_connected(other.end)
            || other.is_value_connected(self.start) || other.is_value_connected(self.end) {
            Some(
                TpRange {
                    start: if self.start <= other.start {
                        self.start
                    } else {
                        other.start
                    },
                    end: if self.end >= other.end {
                        self.end
                    } else {
                        other.end
                    },
                },
            )
        } else {
            None
        }
    }
}

} // verus!
