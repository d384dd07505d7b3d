use vstd::prelude::*;
use std::collections::VecDeque;
use crate::beatmap::{BeatMap, HitObject, in_time_range, times_sorted, TIME_LIMIT};
use crate::clock::{Clock, started_at};
use crate::input::{Cue, InputEvent, KeyPresses, classify, cues_for, get_key_press_type, hit_sounds, presses_of};
use crate::judge::{
    HitObjectQueue, HitOffsets, consumes, entry_for, entry_view, expire, expired, expired_count,
    judge_press, lemma_expired_count_bounds, misses, times_of,
};
use crate::settings::{UserSettings, calibrated};

verus! {

/// The judgement state of one play session: the clock, the map, the pending
/// objects, the log of resolved ones and the player's calibration.
pub struct GameSystem {
    pub clock: Clock,
    pub beatmap: BeatMap,
    pub hitqueue: HitObjectQueue,
    pub hitoffsets: HitOffsets,
    pub user_settings: UserSettings,
}

/// What one tick hands to the audio, rendering and reporting collaborators.
pub struct TickResult {
    /// The adjusted playback time used for every decision of the tick.
    pub cur_time: i64,
    /// Cues to play, in order.
    pub cues: Vec<Cue>,
    /// Times of the objects resolved this tick, whose visuals are removed.
    pub dropped: Vec<i64>,
    /// The new calibration offset, when a calibration key was pressed.
    pub reported_offset: Option<i64>,
}

impl GameSystem {
    /// The objects of the map that are resolved form a prefix of it, one log
    /// entry each; the rest, in order, are the queue.
    pub open spec fn wf(&self) -> bool {
        &&& self.beatmap.wf()
        &&& self.clock.wf()
        &&& self.user_settings.wf()
        &&& self.hitoffsets.offsets@.len() <= self.beatmap.hitobjects@.len()
        &&& self.hitqueue.queue@ == self.beatmap.hitobjects@.subrange(
            self.hitoffsets.offsets@.len() as int,
            self.beatmap.hitobjects@.len() as int,
        )
    }

    /// The object at position `i` of the map has its log entry.
    pub open spec fn is_resolved(&self, i: int) -> bool {
        0 <= i < self.hitoffsets.offsets@.len()
    }

    /// The object at position `i` of the map is in the queue, at position
    /// `i` less the number of log entries.
    pub open spec fn is_pending(&self, i: int) -> bool {
        let j = i - self.hitoffsets.offsets@.len();
        0 <= j < self.hitqueue.queue@.len() && self.hitqueue.queue@[j] == self.beatmap.hitobjects@[i]
    }

    /// The playback time of a tick sampled at absolute time `abs`.
    pub open spec fn tick_time(&self, abs: i64) -> int {
        abs - started_at(self.clock.start_time, abs) + self.user_settings.offset
    }

    /// How many objects expire at time `cur`.
    pub open spec fn expiring(&self, cur: int) -> nat {
        expired_count(self.hitqueue.queue@, self.beatmap.maxhitoffset as int, cur)
    }

    /// The queue once the objects expiring at `cur` are gone.
    pub open spec fn pending_after_expiry(&self, cur: int) -> Seq<HitObject> {
        self.hitqueue.queue@.subrange(self.expiring(cur) as int, self.hitqueue.queue@.len() as int)
    }

    /// Whether a tick at `cur` with these presses resolves an object by a press.
    pub open spec fn press_resolves(&self, cur: int, keys: KeyPresses) -> bool {
        keys.any_lane() && consumes(self.pending_after_expiry(cur), self.beatmap.maxhitoffset as int, cur)
    }

    /// Starts a session on `beatmap`: every object pending, nothing logged,
    /// the clock not yet started.
    pub fn new(beatmap: BeatMap, user_settings: UserSettings) -> (r: GameSystem)
        requires
            beatmap.wf(),
            user_settings.wf(),
        ensures
            r.wf(),
            r.beatmap == beatmap,
            r.user_settings == user_settings,
            r.clock.start_time is None,
            r.hitoffsets.offsets@.len() == 0,
            r.hitqueue.queue@ == beatmap.hitobjects@,
    {
        let mut queue: VecDeque<HitObject> = VecDeque::new();
        let n = beatmap.hitobjects.len();
        let mut i: usize = 0;
        while i < n
            invariant
                n == beatmap.hitobjects@.len(),
                0 <= i <= n,
                queue@ == beatmap.hitobjects@.subrange(0, i as int),
            decreases n - i,
        {
            queue.push_back(beatmap.hitobjects[i]);
            proof {
                assert(queue@ =~= beatmap.hitobjects@.subrange(0, i + 1));
            }
            i += 1;
        }
        proof {
            assert(queue@ =~= beatmap.hitobjects@);
            assert(beatmap.hitobjects@.subrange(0, n as int) =~= beatmap.hitobjects@);
        }
        GameSystem {
            clock: Clock::new(),
            beatmap,
            hitqueue: HitObjectQueue { queue },
            hitoffsets: HitOffsets { offsets: Vec::new() },
            user_settings,
        }
    }

    /// Runs one tick at absolute time `abs` (microseconds) with the events
    /// that arrived since the last tick.
    ///
    /// The clock starts on the first tick; the playback time is sampled once.
    /// Calibration keys change the offset for later ticks only. Every object
    /// whose window has passed is logged as a miss. A lane press then plays
    /// its cues and tests the front object alone: within its window it is
    /// logged (a hit with its offset when the press type matches, else a
    /// miss) and removed; otherwise it stays pending.
    pub fn run(&mut self, abs: i64, events: &Vec<InputEvent>) -> (r: TickResult)
        requires
            old(self).wf(),
            in_time_range(abs as int),
        ensures
            final(self).wf(),
            final(self).beatmap == old(self).beatmap,
            final(self).clock.start_time == Some(started_at(old(self).clock.start_time, abs)),
            r.cur_time == old(self).tick_time(abs),
            -3 * TIME_LIMIT <= r.cur_time <= 3 * TIME_LIMIT,
            ({
                let keys = presses_of(events@);
                let cur = r.cur_time as int;
                let max = old(self).beatmap.maxhitoffset as int;
                let q0 = old(self).hitqueue.queue@;
                let k = old(self).expiring(cur);
                let q1 = old(self).pending_after_expiry(cur);
                let hit = old(self).press_resolves(cur, keys);
                let log0 = old(self).hitoffsets.offsets@;
                let log = final(self).hitoffsets.offsets@;
                &&& final(self).user_settings.offset == calibrated(
                    old(self).user_settings.offset as int,
                    keys.offset_up,
                    keys.offset_down,
                )
                &&& r.reported_offset == (if keys.offset_up || keys.offset_down {
                    Some(final(self).user_settings.offset)
                } else {
                    None::<i64>
                })
                &&& r.cues@ == (if keys.any_lane() {
                    cues_for(keys.red(), keys.dual())
                } else {
                    Seq::<Cue>::empty()
                })
                &&& final(self).hitqueue.queue@ == (if hit {
                    q1.drop_first()
                } else {
                    q1
                })
                &&& log.len() == log0.len() + k + (if hit {
                    1int
                } else {
                    0int
                })
                &&& log.subrange(0, (log0.len() + k) as int) == log0 + misses(k)
                &&& hit ==> entry_view(log.last()) == entry_for(q1[0], cur, keys.dual())
                &&& r.dropped@ == times_of(q0.subrange(0, k as int)) + (if hit {
                    seq![q1[0].time]
                } else {
                    Seq::<i64>::empty()
                })
            }),
            // The log only grows: no entry is rewritten.
            old(self).hitoffsets.offsets@ == final(self).hitoffsets.offsets@.subrange(
                0,
                old(self).hitoffsets.offsets@.len() as int,
            ),
            // Calibration is untouched unless a calibration key was pressed.
            !presses_of(events@).offset_up && !presses_of(events@).offset_down
                ==> final(self).user_settings.offset == old(self).user_settings.offset,
            // Once the last object's window has passed, every object is logged.
            ({
                let objs = old(self).beatmap.hitobjects@;
                objs.len() > 0 && expired(objs.last(), old(self).beatmap.maxhitoffset as int, r.cur_time as int)
                    ==> final(self).hitqueue.queue@.len() == 0 && final(self).hitoffsets.offsets@.len() == objs.len()
            }),
    {
        let ghost objs = self.beatmap.hitobjects@;
        let ghost log0 = self.hitoffsets.offsets@;
        let ghost q0 = self.hitqueue.queue@;
        let max = self.beatmap.maxhitoffset;
        self.clock.start(abs);
        let cur = self.clock.now(abs, self.user_settings.offset);
        let keys = classify(events);
        let reported_offset = self.user_settings.calibrate(keys.offset_up, keys.offset_down);
        proof {
            assert forall|i: int| 0 <= i < q0.len() implies in_time_range(#[trigger] q0[i].time as int) by {
                assert(q0[i] == objs[log0.len() + i]);
            }
        }
        let mut dropped: Vec<i64> = Vec::new();
        let k = expire(&mut self.hitqueue, &mut self.hitoffsets, &mut dropped, max, cur);
        let ghost q1 = self.hitqueue.queue@;
        let ghost log1 = self.hitoffsets.offsets@;
        let ghost d1 = dropped@;
        proof {
            lemma_expired_count_bounds(q0, max as int, cur as int);
            assert(q1 =~= objs.subrange(log0.len() + k, objs.len() as int));
            assert(dropped@ =~= times_of(q0.subrange(0, k as int)));
        }
        let mut cues: Vec<Cue> = Vec::new();
        let mut hit = false;
        if keys.r1 || keys.r2 || keys.b1 || keys.b2 {
            let (red, dual) = get_key_press_type(keys.r1, keys.r2, keys.b1, keys.b2);
            cues = hit_sounds(red, dual);
            hit = judge_press(&mut self.hitqueue, &mut self.hitoffsets, &mut dropped, max, cur, dual);
        }
        proof {
            let log = self.hitoffsets.offsets@;
            if hit {
                assert(self.hitqueue.queue@ =~= objs.subrange(log0.len() + k + 1, objs.len() as int));
                assert(log.subrange(0, log0.len() + k) =~= log.drop_last());
                assert(dropped@ =~= d1 + seq![q1[0].time]);
            } else {
                assert(dropped@ =~= d1 + Seq::<i64>::empty());
            }
            assert(log1 =~= log0 + misses(k as nat));
            assert(log.subrange(0, log0.len() as int) =~= log1.subrange(0, log0.len() as int));
            assert(log0 =~= log1.subrange(0, log0.len() as int));
            if objs.len() > 0 && expired(objs.last(), max as int, cur as int) && q1.len() > 0 {
                assert(q1[0] == objs[log0.len() + k]);
                assert(q1[0].time <= objs.last().time);
            }
        }
        TickResult { cur_time: cur, cues, dropped, reported_offset }
    }
}

/// Whether `time` is among the times of the objects dropped this tick.
pub fn is_dropped(dropped: &Vec<i64>, time: i64) -> (r: bool)
    ensures
        r == dropped@.contains(time),
{
    let mut i: usize = 0;
    while i < dropped.len()
        invariant
            0 <= i <= dropped@.len(),
            forall|j: int| 0 <= j < i ==> dropped@[j] != time,
        decreases dropped@.len() - i,
    {
        if dropped[i] == time {
            return true;
        }
        i += 1;
    }
    false
}

/// Where an object's visual stands on its axis, in micro-units: half its time
/// from now plus an origin of 300000.
pub open spec fn render_position_spec(obj_time: int, cur_time: int) -> int {
    (obj_time - cur_time) / 2 + 300000
}

/// Render position of an object at `obj_time` seen at `cur_time`; halves are
/// rounded down.
pub fn render_position(obj_time: i64, cur_time: i64) -> (r: i64)
    requires
        in_time_range(obj_time as int),
        -3 * TIME_LIMIT <= cur_time <= 3 * TIME_LIMIT,
    ensures
        r == render_position_spec(obj_time as int, cur_time as int),
{
    let d = obj_time - cur_time;
    let half: i64 = if d >= 0 {
        ((d as u64) / 2) as i64
    } else {
        -((((1 - d) as u64) / 2) as i64)
    };
    half + 300000
}

/// The queue stays in time order, its front no later than any other
/// pending object.
pub proof fn lemma_queue_ordered(sys: &GameSystem)
    requires
        sys.wf(),
    ensures
        times_sorted(sys.hitqueue.queue@),
        forall|i: int| 0 <= i < sys.hitqueue.queue@.len() ==> sys.hitqueue.queue@[0].time <= #[trigger] sys.hitqueue.queue@[i].time,
{
    let objs = sys.beatmap.hitobjects@;
    let q = sys.hitqueue.queue@;
    let start = sys.hitoffsets.offsets@.len() as int;
    assert forall|i: int, j: int| 0 <= i <= j < q.len() implies q[i].time <= q[j].time by {
        assert(q[i] == objs[start + i]);
        assert(q[j] == objs[start + j]);
    }
}

/// Each object of the map, by position, is either resolved, with the log
/// entry at that same position, or pending, at its place in the queue; never
/// both. Together with `run` only appending to the log, no object is ever
/// logged twice.
pub proof fn lemma_resolved_once(sys: &GameSystem)
    requires
        sys.wf(),
    ensures
        sys.hitoffsets.offsets@.len() + sys.hitqueue.queue@.len() == sys.beatmap.hitobjects@.len(),
        forall|i: int| 0 <= i < sys.beatmap.hitobjects@.len() ==>
            #[trigger] sys.is_resolved(i) != sys.is_pending(i),
        forall|j: int| 0 <= j < sys.hitqueue.queue@.len() ==> #[trigger] sys.hitqueue.queue@[j]
            == sys.beatmap.hitobjects@[sys.hitoffsets.offsets@.len() + j],
{
}

} // verus!
