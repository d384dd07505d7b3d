use vstd::prelude::*;

verus! {

/// The keys the judgement reads: two per lane and two for calibration.
#[derive(Clone, Copy, Debug, PartialEq, Eq, Structural)]
pub enum KeyCode {
    /// First red key.
    Z,
    /// Second red key.
    X,
    /// First blue key.
    N,
    /// Second blue key.
    M,
    /// Raises the calibration offset.
    Equals,
    /// Lowers the calibration offset.
    Subtract,
    /// Any other key.
    Other,
}

#[derive(Clone, Copy, Debug, PartialEq, Eq, Structural)]
pub enum InputEvent {
    KeyPressed(KeyCode),
    KeyReleased(KeyCode),
}

/// Which keys were pressed during one tick.
#[derive(Clone, Copy, Debug, PartialEq, Eq, Structural)]
pub struct KeyPresses {
    pub r1: bool,
    pub r2: bool,
    pub b1: bool,
    pub b2: bool,
    pub offset_up: bool,
    pub offset_down: bool,
}

/// The sound cues played as feedback for a press.
#[derive(Clone, Copy, Debug, PartialEq, Eq, Structural)]
pub enum Cue {
    Normal,
    Clap,
    Finish,
}

pub open spec fn was_pressed(events: Seq<InputEvent>, k: KeyCode) -> bool {
    exists|i: int| 0 <= i < events.len() && events[i] == InputEvent::KeyPressed(k)
}

pub open spec fn presses_of(events: Seq<InputEvent>) -> KeyPresses {
    KeyPresses {
        r1: was_pressed(events, KeyCode::Z),
        r2: was_pressed(events, KeyCode::X),
        b1: was_pressed(events, KeyCode::N),
        b2: was_pressed(events, KeyCode::M),
        offset_up: was_pressed(events, KeyCode::Equals),
        offset_down: was_pressed(events, KeyCode::Subtract),
    }
}

impl KeyPresses {
    pub open spec fn red(&self) -> bool {
        self.r1 || self.r2
    }

    pub open spec fn blue(&self) -> bool {
        self.b1 || self.b2
    }

    pub open spec fn any_lane(&self) -> bool {
        self.red() || self.blue()
    }

    pub open spec fn dual(&self) -> bool {
        self.red() && self.blue()
    }
}

/// Reduces one tick's events to the set of keys pressed in it. Releases and
/// other keys are ignored; repeated presses of a key count once.
pub fn classify(events: &Vec<InputEvent>) -> (r: KeyPresses)
    ensures
        r == presses_of(events@),
{
    let mut r = KeyPresses {
        r1: false,
        r2: false,
        b1: false,
        b2: false,
        offset_up: false,
        offset_down: false,
    };
    let mut i: usize = 0;
    while i < events.len()
        invariant
            0 <= i <= events@.len(),
            r == presses_of(events@.subrange(0, i as int)),
        decreases events@.len() - i,
    {
        let ghost prev = events@.subrange(0, i as int);
        let ghost next = events@.subrange(0, i + 1);
        match events[i] {
            InputEvent::KeyPressed(k) => match k {
                KeyCode::Z => r.r1 = true,
                KeyCode::X => r.r2 = true,
                KeyCode::N => r.b1 = true,
                KeyCode::M => r.b2 = true,
                KeyCode::Equals => r.offset_up = true,
                KeyCode::Subtract => r.offset_down = true,
                KeyCode::Other => {},
            },
            InputEvent::KeyReleased(_) => {},
        }
        proof {
            assert forall|k: KeyCode| was_pressed(next, k) == (was_pressed(prev, k) || events@[i as int] == InputEvent::KeyPressed(k)) by {
                if was_pressed(prev, k) {
                    let j = choose|j: int| 0 <= j < prev.len() && prev[j] == InputEvent::KeyPressed(k);
                    assert(next[j] == prev[j]);
                }
                if was_pressed(next, k) {
                    let j = choose|j: int| 0 <= j < next.len() && next[j] == InputEvent::KeyPressed(k);
                    if j < i {
                        assert(prev[j] == next[j]);
                    }
                }
                if events@[i as int] == InputEvent::KeyPressed(k) {
                    assert(next[i as int] == events@[i as int]);
                }
            }
        }
        i += 1;
    }
    proof {
        assert(events@.subrange(0, i as int) =~= events@);
    }
    r
}

/// Splits a press into its lane and whether it was a dual press: `red` when a
/// red key was pressed, `dual` when keys of both lanes were.
pub fn get_key_press_type(r1: bool, r2: bool, b1: bool, b2: bool) -> (r: (bool, bool))
    ensures
        r.0 == (r1 || r2),
        r.1 == ((r1 || r2) && (b1 || b2)),
{
    let red = r1 || r2;
    let blue = b1 || b2;
    (red, red && blue)
}

pub open spec fn cues_for(red: bool, dual: bool) -> Seq<Cue> {
    let lane = if red {
        Cue::Normal
    } else {
        Cue::Clap
    };
    if dual {
        seq![lane, Cue::Finish]
    } else {
        seq![lane]
    }
}

/// The cues for a press: the normal cue for red (which wins over blue), else
/// the clap cue, and the finish cue after it for a dual press.
pub fn hit_sounds(red: bool, dual: bool) -> (r: Vec<Cue>)
    ensures
        r@ == cues_for(red, dual),
{
    let mut r: Vec<Cue> = Vec::new();
    if red {
        r.push(Cue::Normal);
    } else {
        r.push(Cue::Clap);
    }
    if dual {
        r.push(Cue::Finish);
    }
    proof {
        assert(r@ =~= cues_for(red, dual));
    }
    r
}

} // verus!
