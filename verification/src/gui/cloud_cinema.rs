//! The scene beside a running generation: when it moves, where its stars and clouds stand, and
//! what its labels say.

use crate::text::{concat, concat3, decimal, trim_text};
use vstd::prelude::*;

verus! {

/// The milliseconds between two frames.
pub const FRAME_INTERVAL: u64 = 240;

/// What the shown generation is doing.
#[derive(Debug, Clone, Copy, PartialEq, Eq, Structural)]
pub enum CloudCinemaActivity {
    /// Nothing is running.
    Inactive,
    /// The provider says that it is running.
    Active,
    Paused,
    /// It needs attention.
    Error,
}

/// Everything that decides whether the scene moves.
#[derive(Debug, Clone, Copy, PartialEq, Eq, Structural)]
pub struct AnimationGate {
    pub activity: CloudCinemaActivity,
    pub mapped: bool,
    pub animations_enabled: bool,
    pub motion_allowed: bool,
}

/// What is done about the timer of the frames.
#[derive(Debug, Clone, Copy, PartialEq, Eq, Structural)]
pub enum TimerStep {
    Start,
    Stop,
    Keep,
}

impl Default for AnimationGate {
    fn default() -> (gate: AnimationGate)
        ensures
            gate == (AnimationGate {
                activity: CloudCinemaActivity::Inactive,
                mapped: false,
                animations_enabled: true,
                motion_allowed: true,
            }),
    {
        AnimationGate {
            activity: CloudCinemaActivity::Inactive,
            mapped: false,
            animations_enabled: true,
            motion_allowed: true,
        }
    }
}

impl AnimationGate {
    /// Whether the scene moves.
    pub open spec fn moves(self) -> bool {
        self.activity == CloudCinemaActivity::Active && self.mapped && self.animations_enabled
            && self.motion_allowed
    }

    /// Whether the scene moves.
    pub fn should_animate(self) -> (b: bool)
        ensures
            b == self.moves(),
    {
        matches!(self.activity, CloudCinemaActivity::Active) && self.mapped
            && self.animations_enabled && self.motion_allowed
    }

    /// What is done about the timer of the frames, which runs or not.
    pub fn refresh(self, running: bool) -> (step: TimerStep)
        ensures
            step == (if self.moves() && !running {
                TimerStep::Start
            } else if !self.moves() && running {
                TimerStep::Stop
            } else {
                TimerStep::Keep
            }),
    {
        let moving = self.should_animate();
        if moving && !running {
            TimerStep::Start
        } else if !moving && running {
            TimerStep::Stop
        } else {
            TimerStep::Keep
        }
    }
}

/// Whether the timer runs after a step.
pub open spec fn running_after(running: bool, step: TimerStep) -> bool {
    match step {
        TimerStep::Start => true,
        TimerStep::Stop => false,
        TimerStep::Keep => running,
    }
}

/// After every step the timer runs if and only if the scene moves.
pub proof fn timer_follows_the_gate(gate: AnimationGate, running: bool)
    ensures
        running_after(
            running,
            if gate.moves() && !running {
                TimerStep::Start
            } else if !gate.moves() && running {
                TimerStep::Stop
            } else {
                TimerStep::Keep
            },
        ) == gate.moves(),
{
}

/// Where a star stands: every other one drifts the other way.
pub open spec fn star_slot(index: int, phase: int, width: int) -> int {
    (index * 11 + if index % 2 == 0 {
        -phase
    } else {
        phase
    }) % width
}

/// Where a cloud stands: the later ones drift more slowly.
pub open spec fn cloud_slot(index: int, phase: int, width: int) -> int {
    (index * 17 + phase / (index + 2)) % width
}

/// A width that is not zero.
pub open spec fn some_width(width: u32) -> int {
    if width == 0 {
        1
    } else {
        width as int
    }
}

/// How far the scene has moved.
#[derive(Debug, Clone, Copy, PartialEq, Eq, Structural)]
pub struct MotionState {
    pub phase: u64,
}

impl Default for MotionState {
    fn default() -> (motion: MotionState)
        ensures
            motion.phase == 0,
    {
        MotionState { phase: 0 }
    }
}

/// The largest phase that a signed number holds as it is.
pub const SIGNED_PHASES: u64 = 0x7fff_ffff_ffff_ffff;

/// The signed number that has the bits of a phase.
pub open spec fn signed_phase(phase: u64) -> int {
    if phase <= SIGNED_PHASES {
        phase as int
    } else {
        phase - u64::MAX - 1
    }
}

impl MotionState {
    /// The next frame.
    pub fn advance(&mut self)
        ensures
            final(self).phase == (if old(self).phase == u64::MAX {
                0
            } else {
                old(self).phase + 1
            }),
    {
        self.phase = if self.phase == u64::MAX {
            0
        } else {
            self.phase + 1
        };
    }

    /// Where the stars stand. They count the phase as a signed number, and no star may leave the
    /// signed range.
    pub fn star_slots(self, width: u32) -> (slots: Vec<u32>)
        requires
            44 - i64::MAX <= signed_phase(self.phase) <= i64::MAX - 55,
        ensures
            slots@.len() == 6,
            forall|i: int|
                0 <= i < 6 ==> (#[trigger] slots@[i]) == star_slot(
                    i,
                    signed_phase(self.phase),
                    some_width(width),
                ),
    {
        let wide: u64 = if width == 0 {
            1
        } else {
            width as u64
        };
        let ghost p = signed_phase(self.phase);
        let step: u64 = if self.phase <= SIGNED_PHASES {
            self.phase % wide
        } else {
            let short: u64 = (u64::MAX - self.phase) + 1;
            let left: u64 = short % wide;
            let step: u64 = if left == 0 {
                0
            } else {
                wide - left
            };
            proof {
                let w = wide as int;
                let s = short as int;
                vstd::arithmetic::div_mod::lemma_fundamental_div_mod(s, w);
                let turns = if left == 0 {
                    -(s / w)
                } else {
                    -(s / w) - 1
                };
                vstd::arithmetic::div_mod::lemma_mod_multiples_vanish(turns, step as int, w);
                assert(w * turns + step == -s) by (nonlinear_arith)
                    requires
                        s == w * (s / w) + left,
                        left == 0 ==> turns == -(s / w) && step == 0,
                        left != 0 ==> turns == -(s / w) - 1 && step == w - left,
                ;
                vstd::arithmetic::div_mod::lemma_small_mod(step as nat, w as nat);
            }
            step
        };
        let mut slots: Vec<u32> = Vec::new();
        let mut i: u64 = 0;
        while i < 6
            invariant
                i <= 6,
                wide == some_width(width),
                p == signed_phase(self.phase),
                step == p % (wide as int),
                slots@.len() == i,
                forall|j: int|
                    0 <= j < i ==> (#[trigger] slots@[j]) == star_slot(
                        j,
                        p,
                        some_width(width),
                    ),
            decreases 6 - i,
        {
            let base: u64 = i * 11;
            let moved: u64 = if i % 2 == 0 {
                base + (wide - step)
            } else {
                base + step
            };
            let slot: u64 = moved % wide;
            proof {
                let w = wide as int;
                vstd::arithmetic::div_mod::lemma_fundamental_div_mod(p, w);
                vstd::arithmetic::div_mod::lemma_mod_bound(p, w);
                if i % 2 == 0 {
                    vstd::arithmetic::div_mod::lemma_mod_multiples_vanish(
                        -(p / w) - 1,
                        base + (w - step),
                        w,
                    );
                    assert(w * (-(p / w) - 1) + (base + (w - step)) == base - p)
                        by (nonlinear_arith)
                        requires
                            p == w * (p / w) + step,
                    ;
                } else {
                    vstd::arithmetic::div_mod::lemma_mod_multiples_vanish(
                        p / w,
                        (base + step) as int,
                        w,
                    );
                }
                vstd::arithmetic::div_mod::lemma_mod_bound(moved as int, w);
            }
            slots.push(slot as u32);
            i = i + 1;
        }
        slots
    }

    /// Where the clouds stand.
    pub fn cloud_slots(self, width: u32) -> (slots: Vec<u32>)
        ensures
            slots@.len() == 4,
            forall|i: int|
                0 <= i < 4 ==> (#[trigger] slots@[i]) == cloud_slot(
                    i,
                    self.phase as int,
                    some_width(width),
                ),
    {
        let wide: u64 = if width == 0 {
            1
        } else {
            width as u64
        };
        let mut slots: Vec<u32> = Vec::new();
        let mut i: u64 = 0;
        while i < 4
            invariant
                i <= 4,
                wide == some_width(width),
                slots@.len() == i,
                forall|j: int|
                    0 <= j < i ==> (#[trigger] slots@[j]) == cloud_slot(
                        j,
                        self.phase as int,
                        some_width(width),
                    ),
            decreases 4 - i,
        {
            proof {
                vstd::arithmetic::div_mod::lemma_div_is_ordered_by_denominator(
                    self.phase as int,
                    2,
                    i + 2,
                );
            }
            let moved: u64 = i * 17 + self.phase / (i + 2);
            let slot: u64 = moved % wide;
            proof {
                vstd::arithmetic::div_mod::lemma_mod_bound(moved as int, wide as int);
            }
            slots.push(slot as u32);
            i = i + 1;
        }
        slots
    }
}

/// A number with two digits at least.
pub open spec fn two_digits(n: nat) -> Seq<char> {
    crate::ui::two_digits(n)
}

fn two(n: u64) -> (s: String)
    ensures
        s@ == two_digits(n as nat),
{
    let digits = decimal(n);
    if n < 10 {
        concat("0", digits.as_str())
    } else {
        digits
    }
}

/// A span of time in hours, minutes and seconds.
pub open spec fn clock(elapsed: u64) -> Seq<char> {
    let hours = (elapsed / 3600) as nat;
    let minutes = (elapsed % 3600 / 60) as nat;
    let seconds = (elapsed % 60) as nat;
    if hours > 0 {
        crate::text::numeral(hours) + ":"@ + two_digits(minutes) + ":"@ + two_digits(seconds)
    } else {
        crate::text::numeral(minutes) + ":"@ + two_digits(seconds)
    }
}

/// How long a generation has been watched, and when it is looked at again.
pub open spec fn timing(elapsed: u64, next_poll: Option<u64>) -> Seq<char> {
    match next_poll {
        Some(seconds) => "Observed this session: "@ + clock(elapsed) + "  •  checking again in "@
            + crate::text::numeral(seconds as nat) + "s"@,
        None => "Observed this session: "@ + clock(elapsed),
    }
}

/// How long a generation has been watched, and when it is looked at again.
pub fn format_timing(elapsed: u64, next_poll: Option<u64>) -> (s: String)
    ensures
        s@ == timing(elapsed, next_poll),
{
    let hours: u64 = elapsed / 3600;
    let minutes: u64 = elapsed % 3600 / 60;
    let seconds: u64 = elapsed % 60;
    let tail = two(seconds);
    let time = if hours > 0 {
        let h = decimal(hours);
        let m = two(minutes);
        let head = concat3(h.as_str(), ":", m.as_str());
        concat3(head.as_str(), ":", tail.as_str())
    } else {
        let m = decimal(minutes);
        concat3(m.as_str(), ":", tail.as_str())
    };
    let watched = concat("Observed this session: ", time.as_str());
    match next_poll {
        Some(n) => {
            let wait = decimal(n);
            let head = concat3(watched.as_str(), "  •  checking again in ", wait.as_str());
            concat(head.as_str(), "s")
        },
        None => watched,
    }
}

/// What an optional label says: nothing where there is nothing to say.
pub open spec fn label_text(value: Option<Seq<char>>, prefix: Seq<char>) -> Option<Seq<char>> {
    match value {
        Some(text) => if crate::text::trimmed(text).len() > 0 {
            Some(prefix + crate::text::trimmed(text))
        } else {
            None
        },
        None => None,
    }
}

/// What an optional label says; it is hidden where there is nothing to say.
pub fn optional_label(value: Option<&str>, prefix: &str) -> (r: Option<String>)
    ensures
        crate::domain::opt_view(r) == label_text(
            crate::gui::composer_state::opt_str(value),
            prefix@,
        ),
{
    match value {
        Some(text) => {
            let shown = trim_text(text);
            if shown.is_empty() {
                None
            } else {
                Some(concat(prefix, shown))
            }
        },
        None => None,
    }
}

/// The style that an activity gives the scene.
pub fn activity_style(activity: CloudCinemaActivity) -> (class: Option<&'static str>)
    ensures
        match activity {
            CloudCinemaActivity::Paused => class matches Some(c) && c@ == "paused"@,
            CloudCinemaActivity::Error => class matches Some(c) && c@ == "error"@,
            _ => class is None,
        },
{
    match activity {
        CloudCinemaActivity::Paused => Some("paused"),
        CloudCinemaActivity::Error => Some("error"),
        _ => None,
    }
}

} // verus!
