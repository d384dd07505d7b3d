use vstd::prelude::*;
use crate::beatmap::{in_time_range, TIME_LIMIT};

verus! {

/// The calibration step: 5 ms per press.
pub const OFFSET_STEP: i64 = 5000;

/// The player's latency compensation, in microseconds, added to the measured
/// elapsed time.
#[derive(Clone, Copy, Debug, PartialEq, Eq, Structural)]
pub struct UserSettings {
    pub offset: i64,
}

/// The offset after one tick's calibration keys: raising wins over lowering,
/// and a step that would leave `TIME_LIMIT` is not taken.
pub open spec fn calibrated(offset: int, up: bool, down: bool) -> int {
    if up {
        if offset + OFFSET_STEP <= TIME_LIMIT {
            offset + OFFSET_STEP
        } else {
            offset
        }
    } else if down {
        if offset - OFFSET_STEP >= -TIME_LIMIT {
            offset - OFFSET_STEP
        } else {
            offset
        }
    } else {
        offset
    }
}

impl UserSettings {
    pub open spec fn wf(&self) -> bool {
        in_time_range(self.offset as int)
    }

    /// Applies one tick's calibration keys. Returns the offset to report when
    /// either key was pressed.
    pub fn calibrate(&mut self, up: bool, down: bool) -> (r: Option<i64>)
        requires
            old(self).wf(),
        ensures
            final(self).wf(),
            final(self).offset == calibrated(old(self).offset as int, up, down),
            r == (if up || down {
                Some(final(self).offset)
            } else {
                None::<i64>
            }),
    {
        if up {
            if self.offset <= TIME_LIMIT - OFFSET_STEP {
                self.offset = self.offset + OFFSET_STEP;
            }
            Some(self.offset)
        } else if down {
            if self.offset >= OFFSET_STEP - TIME_LIMIT {
                self.offset = self.offset - OFFSET_STEP;
            }
            Some(self.offset)
        } else {
            None
        }
    }
}

} // verus!
