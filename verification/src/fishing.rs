//! The fishing state machine: a forward-only cycle of casting, waiting,
//! and reeling, advanced by a per-state timer, with one externally
//! triggered attachment to another player.
use vstd::prelude::*;

use crate::model::Id;
use crate::vec2::Vec2Fx;

verus! {

/// Milliseconds each timed state lasts before it completes.
pub const STATE_DURATION_MS: i64 = 1000;

/// The timer never accumulates beyond this.
pub const TIMER_CAP_MS: i64 = 1_000_000;

/// A player's fishing interaction state.
#[derive(Clone, Copy, PartialEq, Eq, Structural, Debug)]
pub enum FishingState {
    Idle,
    Spinning,
    Casting(Vec2Fx),
    Waiting(Vec2Fx),
    PreReeling { fish: Id, bobber_pos: Vec2Fx },
    Reeling { fish: Id, bobber_pos: Vec2Fx },
    Attached(Id),
}

impl FishingState {
    /// Where the lure floats, for the states that have one in the water.
    pub open spec fn bobber_pos_s(self) -> Option<Vec2Fx> {
        match self {
            FishingState::Waiting(bobber_pos) => Some(bobber_pos),
            FishingState::PreReeling { bobber_pos, .. } => Some(bobber_pos),
            FishingState::Reeling { bobber_pos, .. } => Some(bobber_pos),
            _ => None,
        }
    }

    /// Where the lure floats, for the states that have one in the water.
    pub fn bobber_pos(&self) -> (r: Option<Vec2Fx>)
        ensures
            r == self.bobber_pos_s(),
    {
        match self {
            FishingState::Waiting(bobber_pos) => Some(*bobber_pos),
            FishingState::PreReeling { bobber_pos, .. } => Some(*bobber_pos),
            FishingState::Reeling { bobber_pos, .. } => Some(*bobber_pos),
            _ => None,
        }
    }

    /// Whether this state runs a completion timer.
    pub open spec fn timed_s(self) -> bool {
        match self {
            FishingState::Casting(_) => true,
            FishingState::Waiting(_) => true,
            FishingState::PreReeling { .. } => true,
            FishingState::Reeling { .. } => true,
            _ => false,
        }
    }
}

/// What one timer step of the state machine yields: the next state, the
/// next timer value, and, when a cast just landed, where the lure came
/// down and whether it came down in open water.
pub struct FishingStep {
    pub state: FishingState,
    pub timer: int,
    pub landed: Option<(Vec2Fx, bool)>,
}

/// One timer step: a timed state accumulates `dt`; past its duration,
/// `Casting` lands its lure (open water starts the wait, anything else
/// returns the rod to idle), `PreReeling` becomes `Reeling`, `Reeling`
/// completes back to `Waiting`, and `Waiting` never advances on its own.
pub open spec fn advance_fishing_s(
    state: FishingState,
    timer: int,
    dt: int,
    bobber_in_water: bool,
) -> FishingStep {
    if !state.timed_s() {
        FishingStep { state, timer: 0, landed: None }
    } else {
        let t2 = if timer + dt > TIMER_CAP_MS as int {
            TIMER_CAP_MS as int
        } else {
            timer + dt
        };
        if t2 > STATE_DURATION_MS as int {
            match state {
                FishingState::Casting(b) => if bobber_in_water {
                    FishingStep {
                        state: FishingState::Waiting(b),
                        timer: 0,
                        landed: Some((b, true)),
                    }
                } else {
                    FishingStep { state: FishingState::Idle, timer: 0, landed: Some((b, false)) }
                },
                FishingState::PreReeling { fish, bobber_pos } => FishingStep {
                    state: FishingState::Reeling { fish, bobber_pos },
                    timer: 0,
                    landed: None,
                },
                FishingState::Reeling { fish, bobber_pos } => FishingStep {
                    state: FishingState::Waiting(bobber_pos),
                    timer: 0,
                    landed: None,
                },
                _ => FishingStep { state, timer: t2, landed: None },
            }
        } else {
            FishingStep { state, timer: t2, landed: None }
        }
    }
}

/// Advance a fishing state by `dt` milliseconds of simulated time.
pub fn advance_fishing(state: FishingState, timer: i64, dt: i64, bobber_in_water: bool) -> (r: (
    FishingState,
    i64,
    Option<(Vec2Fx, bool)>,
))
    requires
        0 <= timer <= TIMER_CAP_MS,
        0 <= dt <= 1_000_000,
    ensures
        advance_fishing_s(state, timer as int, dt as int, bobber_in_water) == (FishingStep {
            state: r.0,
            timer: r.1 as int,
            landed: r.2,
        }),
        0 <= r.1 <= TIMER_CAP_MS,
{
    let timed = match state {
        FishingState::Casting(_) => true,
        FishingState::Waiting(_) => true,
        FishingState::PreReeling { .. } => true,
        FishingState::Reeling { .. } => true,
        _ => false,
    };
    if !timed {
        return (state, 0, None);
    }
    let t2 = if timer + dt > TIMER_CAP_MS {
        TIMER_CAP_MS
    } else {
        timer + dt
    };
    if t2 > STATE_DURATION_MS {
        match state {
            FishingState::Casting(b) => {
                if bobber_in_water {
                    (FishingState::Waiting(b), 0, Some((b, true)))
                } else {
                    (FishingState::Idle, 0, Some((b, false)))
                }
            },
            FishingState::PreReeling { fish, bobber_pos } => (
                FishingState::Reeling { fish, bobber_pos },
                0,
                None,
            ),
            FishingState::Reeling { fish, bobber_pos } => (
                FishingState::Waiting(bobber_pos),
                0,
                None,
            ),
            _ => (state, t2, None),
        }
    } else {
        (state, t2, None)
    }
}

/// A cast whose timer has run out over open water lands in the `Waiting`
/// state, deterministically; and `Waiting` never advances by timer alone,
/// so the wait never reverts on its own.
pub proof fn lemma_fishing_progress(state: FishingState, timer: int, dt: int, water: bool)
    requires
        0 <= timer <= TIMER_CAP_MS as int,
        0 <= dt,
    ensures
        (state matches FishingState::Casting(b) && timer + dt > STATE_DURATION_MS as int && water)
            ==> advance_fishing_s(state, timer, dt, water).state == FishingState::Waiting(
            state->Casting_0,
        ),
        (state matches FishingState::Waiting(b)) ==> advance_fishing_s(state, timer, dt, water).state
            == state,
{
}

} // verus!
