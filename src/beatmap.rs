use vstd::prelude::*;

verus! {

/// Largest magnitude, in microseconds, of any time the library handles
/// (object times, the hit window, clock samples, the calibration offset).
/// Keeping every time within it lets all differences fit in an `i64`.
pub const TIME_LIMIT: i64 = 1152921504606846976;

pub open spec fn in_time_range(t: int) -> bool {
    -TIME_LIMIT <= t <= TIME_LIMIT
}

/// Whether `t` lies within `TIME_LIMIT`.
pub fn in_range(t: i64) -> (r: bool)
    ensures
        r == in_time_range(t as int),
{
    -TIME_LIMIT <= t && t <= TIME_LIMIT
}

/// The lane a hit object belongs to.
#[derive(Clone, Copy, Debug, PartialEq, Eq, Structural)]
pub enum Lane {
    Red,
    Blue,
}

/// A timed target.
#[derive(Clone, Copy, Debug, PartialEq, Eq, Structural)]
pub struct HitObject {
    /// The ideal moment of judgement, in microseconds.
    pub time: i64,
    pub lane: Lane,
    /// Whether the object asks for both lanes at once.
    pub is_dual: bool,
}

pub open spec fn times_sorted(s: Seq<HitObject>) -> bool {
    forall|i: int, j: int| 0 <= i <= j < s.len() ==> s[i].time <= s[j].time
}

pub open spec fn times_in_range(s: Seq<HitObject>) -> bool {
    forall|i: int| 0 <= i < s.len() ==> in_time_range(s[i].time as int)
}

/// The immutable description of a map: its hit objects in time order and the
/// half-width of the window in which an object can be struck.
pub struct BeatMap {
    pub hitobjects: Vec<HitObject>,
    pub maxhitoffset: i64,
}

impl BeatMap {
    pub open spec fn wf(&self) -> bool {
        &&& 0 <= self.maxhitoffset <= TIME_LIMIT
        &&& times_sorted(self.hitobjects@)
        &&& times_in_range(self.hitobjects@)
    }

    /// Builds a map; `None` when the objects are out of time order, a time or
    /// the window lies outside `TIME_LIMIT`, or the window is negative.
    pub fn new(hitobjects: Vec<HitObject>, maxhitoffset: i64) -> (r: Option<BeatMap>)
        ensures
            r is Some <==> (BeatMap { hitobjects, maxhitoffset }).wf(),
            r matches Some(m) ==> m.hitobjects@ == hitobjects@ && m.maxhitoffset == maxhitoffset,
    {
        if maxhitoffset < 0 || maxhitoffset > TIME_LIMIT {
            return None;
        }
        let n = hitobjects.len();
        let mut i: usize = 0;
        while i < n
            invariant
                n == hitobjects@.len(),
                0 <= i <= n,
                times_in_range(hitobjects@.subrange(0, i as int)),
                times_sorted(hitobjects@.subrange(0, i as int)),
            decreases n - i,
        {
            let t = hitobjects[i].time;
            if t < -TIME_LIMIT || t > TIME_LIMIT {
                proof {
                    assert(!times_in_range(hitobjects@));
                }
                return None;
            }
            if i > 0 && hitobjects[i - 1].time > t {
                proof {
                    assert(!times_sorted(hitobjects@));
                }
                return None;
            }
            proof {
                let s = hitobjects@.subrange(0, i + 1);
                assert forall|a: int, b: int| 0 <= a <= b < s.len() implies s[a].time <= s[b].time by {
                    if b == i && a < b {
                        assert(hitobjects@.subrange(0, i as int)[a] == s[a]);
                        assert(hitobjects@.subrange(0, i as int)[i - 1] == s[i - 1]);
                    } else if b < i {
                        assert(hitobjects@.subrange(0, i as int)[a] == s[a]);
                        assert(hitobjects@.subrange(0, i as int)[b] == s[b]);
                    }
                }
                assert forall|a: int| 0 <= a < s.len() implies in_time_range(s[a].time as int) by {
                    if a < i {
                        assert(hitobjects@.subrange(0, i as int)[a] == s[a]);
                    }
                }
            }
            i += 1;
        }
        proof {
            assert(hitobjects@.subrange(0, n as int) =~= hitobjects@);
        }
        Some(BeatMap { hitobjects, maxhitoffset })
    }
}

} // verus!
