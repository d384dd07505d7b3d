use vstd::prelude::*;
use crate::beatmap::in_time_range;

verus! {

/// The playback clock. It holds the absolute time, in microseconds, at which
/// judgement started; the absolute time itself is sampled by the caller.
#[derive(Clone, Copy, Debug, PartialEq, Eq, Structural)]
pub struct Clock {
    pub start_time: Option<i64>,
}

/// The start time after `start(abs)`: an unset or non-positive start is
/// replaced by `abs`, any other is kept.
pub open spec fn started_at(start_time: Option<i64>, abs: i64) -> i64 {
    match start_time {
        Some(s) => if s > 0 {
            s
        } else {
            abs
        },
        None => abs,
    }
}

impl Clock {
    pub open spec fn wf(&self) -> bool {
        self.start_time matches Some(s) ==> in_time_range(s as int)
    }

    pub fn new() -> (r: Clock)
        ensures
            r.start_time is None,
    {
        Clock { start_time: None }
    }

    /// Captures `abs` as the start unless the clock already started.
    pub fn start(&mut self, abs: i64)
        requires
            old(self).wf(),
            in_time_range(abs as int),
        ensures
            final(self).wf(),
            final(self).start_time == Some(started_at(old(self).start_time, abs)),
    {
        match self.start_time {
            Some(s) => {
                if s <= 0 {
                    self.start_time = Some(abs);
                }
            },
            None => {
                self.start_time = Some(abs);
            },
        }
    }

    /// The adjusted playback time: `abs - start + offset`.
    pub fn now(&self, abs: i64, offset: i64) -> (r: i64)
        requires
            self.start_time is Some,
            self.wf(),
            in_time_range(abs as int),
            in_time_range(offset as int),
        ensures
            r == abs - self.start_time.unwrap() + offset,
    {
        let s = self.start_time.unwrap();
        abs - s + offset
    }
}

} // verus!
