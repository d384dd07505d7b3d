use hit_judgement::beatmap::{in_range, BeatMap, HitObject, Lane, TIME_LIMIT};
use hit_judgement::clock::Clock;
use hit_judgement::input::{classify, get_key_press_type, hit_sounds, Cue, InputEvent, KeyCode};
use hit_judgement::judge::check_hit;
use hit_judgement::settings::{UserSettings, OFFSET_STEP};
use hit_judgement::system::{is_dropped, render_position, GameSystem};

const START: i64 = 5_000_000;

fn obj(time: i64, is_dual: bool) -> HitObject {
    HitObject { time, lane: Lane::Red, is_dual }
}

fn session(objects: Vec<HitObject>, max: i64) -> GameSystem {
    let map = BeatMap::new(objects, max).unwrap();
    let mut sys = GameSystem::new(map, UserSettings { offset: 0 });
    let first = sys.run(START, &vec![]);
    assert_eq!(first.cur_time, 0);
    sys
}

fn press(k: KeyCode) -> InputEvent {
    InputEvent::KeyPressed(k)
}

fn queue_times(sys: &GameSystem) -> Vec<i64> {
    sys.hitqueue.queue.iter().map(|o| o.time).collect()
}

#[test]
fn press_within_window_logs_offset() {
    let mut sys = session(vec![obj(1_000_000, false)], 100_000);
    let r = sys.run(START + 1_050_000, &vec![press(KeyCode::Z)]);
    assert_eq!(r.cur_time, 1_050_000);
    assert_eq!(sys.hitoffsets.offsets, vec![Some(-50_000)]);
    assert!(sys.hitqueue.queue.is_empty());
    assert_eq!(r.dropped, vec![1_000_000]);
    assert_eq!(r.cues, vec![Cue::Normal]);
}

#[test]
fn press_after_window_is_logged_by_expiry() {
    let mut sys = session(vec![obj(1_000_000, false)], 100_000);
    let r = sys.run(START + 1_200_000, &vec![press(KeyCode::Z)]);
    assert_eq!(sys.hitoffsets.offsets, vec![None]);
    assert!(sys.hitqueue.queue.is_empty());
    assert_eq!(r.dropped, vec![1_000_000]);
    assert_eq!(r.cues, vec![Cue::Normal]);
}

#[test]
fn expiry_without_press() {
    let mut sys = session(vec![obj(1_000_000, false)], 100_000);
    sys.run(START + 1_000_000, &vec![]);
    sys.run(START + 1_100_000, &vec![]);
    assert!(sys.hitoffsets.offsets.is_empty());
    assert_eq!(sys.hitqueue.queue.len(), 1);
    let r = sys.run(START + 1_100_001, &vec![]);
    assert_eq!(sys.hitoffsets.offsets, vec![None]);
    assert!(sys.hitqueue.queue.is_empty());
    assert_eq!(r.dropped, vec![1_000_000]);
    assert!(r.cues.is_empty());
}

#[test]
fn calibration_unchanged_without_calibration_keys() {
    let mut sys = session(vec![obj(1_000_000, false), obj(2_000_000, true)], 100_000);
    let batches = vec![
        vec![],
        vec![press(KeyCode::Z)],
        vec![press(KeyCode::N), press(KeyCode::M)],
        vec![InputEvent::KeyReleased(KeyCode::Equals), InputEvent::KeyReleased(KeyCode::Subtract)],
        vec![press(KeyCode::Other), press(KeyCode::X)],
    ];
    let mut t = START;
    for b in batches.iter() {
        t += 400_000;
        let r = sys.run(t, b);
        assert_eq!(sys.user_settings.offset, 0);
        assert_eq!(r.reported_offset, None);
    }
}

#[test]
fn calibration_keys_step_the_offset() {
    let mut sys = session(vec![], 100_000);
    let r = sys.run(START + 10, &vec![press(KeyCode::Equals)]);
    assert_eq!(r.reported_offset, Some(5_000));
    assert_eq!(r.cur_time, 10);
    let r = sys.run(START + 20, &vec![press(KeyCode::Equals)]);
    assert_eq!(r.cur_time, 5_020);
    assert_eq!(sys.user_settings.offset, 10_000);
    let r = sys.run(START + 30, &vec![press(KeyCode::Subtract)]);
    assert_eq!(r.reported_offset, Some(5_000));
    let r = sys.run(START + 40, &vec![press(KeyCode::Subtract), press(KeyCode::Equals)]);
    assert_eq!(r.reported_offset, Some(10_000));
    assert_eq!(OFFSET_STEP, 5_000);
}

#[test]
fn calibration_stops_at_the_time_limit() {
    let mut s = UserSettings { offset: TIME_LIMIT - 1 };
    assert_eq!(s.calibrate(true, false), Some(TIME_LIMIT - 1));
    let mut s = UserSettings { offset: -TIME_LIMIT + 5_000 };
    assert_eq!(s.calibrate(false, true), Some(-TIME_LIMIT));
    assert_eq!(s.calibrate(false, false), None);
}

#[test]
fn dual_object_single_press_is_a_consumed_miss() {
    let mut sys = session(vec![obj(2_000_000, true)], 100_000);
    let r = sys.run(START + 2_000_000, &vec![press(KeyCode::Z)]);
    assert_eq!(sys.hitoffsets.offsets, vec![None]);
    assert!(sys.hitqueue.queue.is_empty());
    assert_eq!(r.dropped, vec![2_000_000]);
    assert_eq!(r.cues, vec![Cue::Normal]);
}

#[test]
fn dual_object_dual_press_is_a_hit() {
    let mut sys = session(vec![obj(2_000_000, true)], 100_000);
    let r = sys.run(START + 1_960_000, &vec![press(KeyCode::X), press(KeyCode::M)]);
    assert_eq!(sys.hitoffsets.offsets, vec![Some(40_000)]);
    assert_eq!(r.cues, vec![Cue::Normal, Cue::Finish]);
}

#[test]
fn single_object_dual_press_is_a_miss() {
    let mut sys = session(vec![obj(2_000_000, false)], 100_000);
    sys.run(START + 2_000_000, &vec![press(KeyCode::Z), press(KeyCode::N)]);
    assert_eq!(sys.hitoffsets.offsets, vec![None]);
}

#[test]
fn blue_press_plays_clap() {
    let mut sys = session(vec![obj(2_000_000, false)], 100_000);
    let r = sys.run(START + 2_010_000, &vec![press(KeyCode::N), press(KeyCode::N)]);
    assert_eq!(r.cues, vec![Cue::Clap]);
    assert_eq!(sys.hitoffsets.offsets, vec![Some(-10_000)]);
}

#[test]
fn early_press_is_an_air_click() {
    let mut sys = session(vec![obj(1_000_000, false)], 100_000);
    let r = sys.run(START + 899_999, &vec![press(KeyCode::Z)]);
    assert_eq!(r.cues, vec![Cue::Normal]);
    assert!(r.dropped.is_empty());
    assert!(sys.hitoffsets.offsets.is_empty());
    assert_eq!(queue_times(&sys), vec![1_000_000]);
    sys.run(START + 900_000, &vec![press(KeyCode::Z)]);
    assert_eq!(sys.hitoffsets.offsets, vec![Some(100_000)]);
}

#[test]
fn late_window_edge_is_a_hit() {
    let mut sys = session(vec![obj(1_000_000, false)], 100_000);
    sys.run(START + 1_100_000, &vec![press(KeyCode::Z)]);
    assert_eq!(sys.hitoffsets.offsets, vec![Some(-100_000)]);
}

#[test]
fn one_press_resolves_one_object() {
    let mut sys = session(vec![obj(1_000_000, false), obj(1_000_000, false)], 100_000);
    let r = sys.run(START + 1_000_000, &vec![press(KeyCode::Z), press(KeyCode::X)]);
    assert_eq!(sys.hitoffsets.offsets, vec![Some(0)]);
    assert_eq!(queue_times(&sys), vec![1_000_000]);
    assert_eq!(r.dropped, vec![1_000_000]);
}

#[test]
fn press_on_empty_queue_only_plays() {
    let mut sys = session(vec![], 100_000);
    let r = sys.run(START + 1, &vec![press(KeyCode::M)]);
    assert_eq!(r.cues, vec![Cue::Clap]);
    assert!(r.dropped.is_empty());
    assert!(sys.hitoffsets.offsets.is_empty());
}

#[test]
fn queue_stays_ordered_and_every_object_is_logged_once() {
    let times = vec![500_000, 1_000_000, 1_000_000, 1_500_000, 2_500_000, 4_000_000];
    let objects: Vec<HitObject> = times.iter().map(|t| obj(*t, false)).collect();
    let mut sys = session(objects, 100_000);
    let ticks: Vec<(i64, Vec<InputEvent>)> = vec![
        (480_000, vec![press(KeyCode::Z)]),
        (1_150_000, vec![]),
        (1_490_000, vec![press(KeyCode::N)]),
        (2_000_000, vec![press(KeyCode::X)]),
        (3_000_000, vec![]),
        (4_100_001, vec![press(KeyCode::Z)]),
    ];
    let mut total = 0;
    for (t, evs) in ticks.iter() {
        let before = sys.hitoffsets.offsets.clone();
        let r = sys.run(START + t, evs);
        let q = queue_times(&sys);
        for w in q.windows(2) {
            assert!(w[0] <= w[1]);
        }
        assert_eq!(&sys.hitoffsets.offsets[..before.len()], &before[..]);
        assert_eq!(sys.hitoffsets.offsets.len() + q.len(), times.len());
        total += r.dropped.len();
    }
    assert_eq!(total, times.len());
    assert_eq!(
        sys.hitoffsets.offsets,
        vec![Some(20_000), None, None, Some(10_000), None, None]
    );
    assert!(sys.hitqueue.queue.is_empty());
}

#[test]
fn beatmap_checks_order_and_range() {
    assert!(BeatMap::new(vec![obj(2, false), obj(1, false)], 10).is_none());
    assert!(BeatMap::new(vec![obj(1, false)], -1).is_none());
    assert!(BeatMap::new(vec![obj(TIME_LIMIT + 1, false)], 1).is_none());
    assert!(BeatMap::new(vec![obj(1, false)], TIME_LIMIT + 1).is_none());
    let m = BeatMap::new(vec![obj(1, false), obj(1, true), obj(3, false)], 10).unwrap();
    assert_eq!(m.hitobjects.len(), 3);
    assert_eq!(m.maxhitoffset, 10);
    assert!(BeatMap::new(vec![], 0).is_some());
}

#[test]
fn classify_collapses_presses_and_ignores_releases() {
    let k = classify(&vec![
        press(KeyCode::Z),
        press(KeyCode::Z),
        InputEvent::KeyReleased(KeyCode::X),
        press(KeyCode::M),
        press(KeyCode::Other),
        press(KeyCode::Subtract),
    ]);
    assert!(k.r1 && !k.r2 && !k.b1 && k.b2 && !k.offset_up && k.offset_down);
    let none = classify(&vec![]);
    assert!(!(none.r1 || none.r2 || none.b1 || none.b2 || none.offset_up || none.offset_down));
}

#[test]
fn press_type_and_sounds() {
    assert_eq!(get_key_press_type(true, false, false, false), (true, false));
    assert_eq!(get_key_press_type(false, false, false, true), (false, false));
    assert_eq!(get_key_press_type(false, true, true, false), (true, true));
    assert_eq!(get_key_press_type(true, true, false, false), (true, false));
    assert_eq!(hit_sounds(true, false), vec![Cue::Normal]);
    assert_eq!(hit_sounds(false, false), vec![Cue::Clap]);
    assert_eq!(hit_sounds(true, true), vec![Cue::Normal, Cue::Finish]);
}

#[test]
fn check_hit_window_and_type() {
    assert_eq!(check_hit(100, &obj(1_000, true), 1_100, true), (Some(-100), true));
    assert_eq!(check_hit(100, &obj(1_000, true), 1_101, true), (None, true));
    assert_eq!(check_hit(100, &obj(1_000, false), 899, false), (None, true));
    assert_eq!(check_hit(100, &obj(1_000, false), 950, true), (Some(50), false));
}

#[test]
fn render_positions() {
    assert_eq!(render_position(1_000_000, 0), 800_000);
    assert_eq!(render_position(0, 1_000_000), -200_000);
    assert_eq!(render_position(0, 3), 299_998);
    assert_eq!(render_position(3, 0), 300_001);
}

#[test]
fn dropped_lookup() {
    let d = vec![5, 9];
    assert!(is_dropped(&d, 9));
    assert!(!is_dropped(&d, 7));
    assert!(!is_dropped(&vec![], 0));
}

#[test]
fn clock_starts_once() {
    let mut c = Clock::new();
    c.start(100);
    c.start(300);
    assert_eq!(c.start_time, Some(100));
    assert_eq!(c.now(350, 7), 257);
    let mut z = Clock { start_time: Some(0) };
    z.start(40);
    assert_eq!(z.start_time, Some(40));
}

#[test]
fn time_range_bounds() {
    assert!(in_range(TIME_LIMIT));
    assert!(in_range(-TIME_LIMIT));
    assert!(!in_range(TIME_LIMIT + 1));
    assert!(!in_range(i64::MIN));
}
