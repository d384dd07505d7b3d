use vstd::prelude::*;
use std::collections::VecDeque;
use crate::beatmap::{HitObject, in_time_range, times_in_range, TIME_LIMIT};

verus! {

/// The objects not yet resolved, earliest first.
pub struct HitObjectQueue {
    pub queue: VecDeque<HitObject>,
}

/// One entry per resolved object, in order of resolution: `Some(offset)` for
/// a hit with its signed timing error (object time minus press time), `None`
/// for a miss.
pub struct HitOffsets {
    pub offsets: Vec<Option<i64>>,
}

/// An object has expired once its whole window lies before `cur`.
pub open spec fn expired(o: HitObject, max: int, cur: int) -> bool {
    o.time + max < cur
}

/// `cur` lies within `max` of the object's time.
pub open spec fn in_window(o: HitObject, max: int, cur: int) -> bool {
    o.time - max <= cur <= o.time + max
}

/// How many objects at the front of `q` have expired, scanning from the front
/// and stopping at the first one that has not.
pub open spec fn expired_count(q: Seq<HitObject>, max: int, cur: int) -> nat
    decreases q.len(),
{
    if q.len() > 0 && expired(q[0], max, cur) {
        1 + expired_count(q.drop_first(), max, cur)
    } else {
        0
    }
}

/// The log entry for an object struck within its window: a hit with its
/// offset when the press type matches the object, else a miss.
pub open spec fn entry_for(o: HitObject, cur: int, dual: bool) -> Option<int> {
    if o.is_dual == dual {
        Some(o.time - cur)
    } else {
        None
    }
}

pub open spec fn entry_view(e: Option<i64>) -> Option<int> {
    match e {
        Some(x) => Some(x as int),
        None => None,
    }
}

pub open spec fn times_of(s: Seq<HitObject>) -> Seq<i64> {
    s.map_values(|o: HitObject| o.time)
}

pub open spec fn misses(n: nat) -> Seq<Option<i64>> {
    Seq::new(n, |i: int| None::<i64>)
}

/// Bounds under which the judgement arithmetic cannot overflow.
pub open spec fn judge_bounds(max: int, cur: int) -> bool {
    0 <= max <= TIME_LIMIT && -3 * TIME_LIMIT <= cur <= 3 * TIME_LIMIT
}

pub proof fn lemma_expired_count_step(q: Seq<HitObject>, max: int, cur: int)
    requires
        q.len() > 0,
        expired(q[0], max, cur),
    ensures
        expired_count(q, max, cur) == 1 + expired_count(q.subrange(1, q.len() as int), max, cur),
{
    assert(q.drop_first() =~= q.subrange(1, q.len() as int));
}

pub proof fn lemma_expired_count_bounds(q: Seq<HitObject>, max: int, cur: int)
    ensures
        expired_count(q, max, cur) <= q.len(),
        forall|i: int| 0 <= i < expired_count(q, max, cur) ==> expired(#[trigger] q[i], max, cur),
        expired_count(q, max, cur) < q.len() ==> !expired(q[expired_count(q, max, cur) as int], max, cur),
    decreases q.len(),
{
    if q.len() > 0 && expired(q[0], max, cur) {
        lemma_expired_count_bounds(q.drop_first(), max, cur);
        assert forall|i: int| 0 <= i < expired_count(q, max, cur) implies expired(#[trigger] q[i], max, cur) by {
            if i > 0 {
                assert(q[i] == q.drop_first()[i - 1]);
            }
        }
    }
}

/// Pops every expired object off the front of the queue, logs a miss for each,
/// and appends each one's time to `dropped`. Returns how many were popped.
pub fn expire(
    hitqueue: &mut HitObjectQueue,
    hitoffsets: &mut HitOffsets,
    dropped: &mut Vec<i64>,
    max: i64,
    cur: i64,
) -> (k: usize)
    requires
        judge_bounds(max as int, cur as int),
        times_in_range(old(hitqueue).queue@),
    ensures
        k == expired_count(old(hitqueue).queue@, max as int, cur as int),
        final(hitqueue).queue@ == old(hitqueue).queue@.subrange(k as int, old(hitqueue).queue@.len() as int),
        final(hitoffsets).offsets@ == old(hitoffsets).offsets@ + misses(k as nat),
        final(dropped)@ == old(dropped)@ + times_of(old(hitqueue).queue@.subrange(0, k as int)),
{
    let ghost q0 = hitqueue.queue@;
    let ghost log0 = hitoffsets.offsets@;
    let ghost d0 = dropped@;
    let n0 = hitqueue.queue.len();
    let mut k: usize = 0;
    loop
        invariant
            judge_bounds(max as int, cur as int),
            n0 == q0.len(),
            times_in_range(q0),
            k <= q0.len(),
            hitqueue.queue@ == q0.subrange(k as int, q0.len() as int),
            expired_count(q0, max as int, cur as int) == k + expired_count(hitqueue.queue@, max as int, cur as int),
            hitoffsets.offsets@ == log0 + misses(k as nat),
            dropped@ == d0 + times_of(q0.subrange(0, k as int)),
        ensures
            k <= q0.len(),
            hitqueue.queue@ == q0.subrange(k as int, q0.len() as int),
            expired_count(q0, max as int, cur as int) == k,
            hitoffsets.offsets@ == log0 + misses(k as nat),
            dropped@ == d0 + times_of(q0.subrange(0, k as int)),
        decreases hitqueue.queue@.len(),
    {
        if hitqueue.queue.len() == 0 {
            break;
        }
        let t = hitqueue.queue[0].time;
        proof {
            assert(hitqueue.queue@[0] == q0[k as int]);
        }
        if t + max < cur {
            proof {
                lemma_expired_count_step(hitqueue.queue@, max as int, cur as int);
            }
            let _ = hitqueue.queue.pop_front();
            hitoffsets.offsets.push(None);
            dropped.push(t);
            proof {
                assert(hitqueue.queue@ =~= q0.subrange(k + 1, q0.len() as int));
                assert(hitoffsets.offsets@ =~= log0 + misses((k + 1) as nat));
                assert(q0.subrange(0, k + 1) =~= q0.subrange(0, k as int).push(q0[k as int]));
                assert(times_of(q0.subrange(0, k + 1)) =~= times_of(q0.subrange(0, k as int)).push(t));
                assert(dropped@ =~= d0 + times_of(q0.subrange(0, k + 1)));
            }
            k = k + 1;
        } else {
            break;
        }
    }
    k
}

/// Judges `head` against a press at `cur`: the timing offset when `cur` lies
/// within the window, and whether the press type matches the object.
pub fn check_hit(max: i64, head: &HitObject, cur: i64, dual: bool) -> (r: (Option<i64>, bool))
    requires
        judge_bounds(max as int, cur as int),
        in_time_range(head.time as int),
    ensures
        r.0 == (if in_window(*head, max as int, cur as int) {
            Some((head.time - cur) as i64)
        } else {
            None::<i64>
        }),
        r.1 == (head.is_dual == dual),
{
    if head.time - max <= cur && cur <= head.time + max {
        (Some(head.time - cur), head.is_dual == dual)
    } else {
        (None, head.is_dual == dual)
    }
}

/// Whether a press at `cur` resolves the front of `q`.
pub open spec fn consumes(q: Seq<HitObject>, max: int, cur: int) -> bool {
    q.len() > 0 && in_window(q[0], max, cur)
}

/// Tests the front object against a press. Within the window it is resolved
/// (logged as a hit or a miss, its time appended to `dropped`); otherwise it
/// stays pending. Returns whether it was resolved.
pub fn judge_press(
    hitqueue: &mut HitObjectQueue,
    hitoffsets: &mut HitOffsets,
    dropped: &mut Vec<i64>,
    max: i64,
    cur: i64,
    dual: bool,
) -> (resolved: bool)
    requires
        judge_bounds(max as int, cur as int),
        times_in_range(old(hitqueue).queue@),
    ensures
        resolved == consumes(old(hitqueue).queue@, max as int, cur as int),
        resolved ==> {
            let head = old(hitqueue).queue@[0];
            &&& final(hitqueue).queue@ == old(hitqueue).queue@.drop_first()
            &&& final(hitoffsets).offsets@.len() == old(hitoffsets).offsets@.len() + 1
            &&& final(hitoffsets).offsets@.drop_last() == old(hitoffsets).offsets@
            &&& entry_view(final(hitoffsets).offsets@.last()) == entry_for(head, cur as int, dual)
            &&& final(dropped)@ == old(dropped)@.push(head.time)
        },
        !resolved ==> {
            &&& final(hitqueue).queue@ == old(hitqueue).queue@
            &&& final(hitoffsets).offsets@ == old(hitoffsets).offsets@
            &&& final(dropped)@ == old(dropped)@
        },
{
    match hitqueue.queue.pop_front() {
        Some(head) => {
            proof {
                assert(in_time_range(old(hitqueue).queue@[0].time as int));
            }
            let (offset, clicked) = check_hit(max, &head, cur, dual);
            match offset {
                Some(offset) => {
                    if clicked {
                        hitoffsets.offsets.push(Some(offset));
                    } else {
                        hitoffsets.offsets.push(None);
                    }
                    dropped.push(head.time);
                    proof {
                        assert(hitoffsets.offsets@.drop_last() =~= old(hitoffsets).offsets@);
                        assert(hitqueue.queue@ =~= old(hitqueue).queue@.drop_first());
                    }
                    true
                },
                None => {
                    hitqueue.queue.push_front(head);
                    proof {
                        assert(hitqueue.queue@ =~= old(hitqueue).queue@);
                    }
                    false
                },
            }
        },
        None => false,
    }
}

} // verus!
