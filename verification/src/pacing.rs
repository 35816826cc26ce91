//! Pacing of the game loop: a fixed time step of one sixtieth of a second.
//!
//! The loop itself, with its clock and its sleep, belongs to the program. It
//! hands each pass to a [`FrameClock`]: what the pass answered and how long it
//! took. The clock says how many updates of the game's state are due and how
//! long to sleep before the next pass.

use vstd::prelude::*;

verus! {

/// What one pass of the game loop asks for.
#[derive(Clone, Copy, Debug, PartialEq, Eq, Structural)]
pub enum Action {
    Stop,
    Continue,
}

/// Length of one time step, in nanoseconds.
pub const FRAME_NANOS: u64 = 16666667;

/// What is due after a pass of the loop that goes on.
#[derive(Clone, Copy, Debug, PartialEq, Eq, Structural)]
pub struct Pace {
    /// Number of whole time steps that have gone by: so many updates of the
    /// game's state are due.
    pub updates: u64,
    /// Nanoseconds to sleep, so that the next pass starts with the next time
    /// step.
    pub sleep: u64,
}

/// The time that has gone by and that no update has used up yet. It is always
/// less than one time step.
pub struct FrameClock {
    accumulator: u64,
}

impl FrameClock {
    /// What holds of every clock: every whole time step has been handed out.
    #[verifier::type_invariant]
    spec fn well_formed(self) -> bool {
        self.accumulator < FRAME_NANOS
    }

    /// Nanoseconds gone by that no update has used up.
    pub closed spec fn pending(&self) -> nat {
        self.accumulator as nat
    }

    /// A clock on which no time has gone by.
    pub fn new() -> (clock: FrameClock)
        ensures
            clock.pending() == 0,
    {
        FrameClock { accumulator: 0 }
    }

    /// Nanoseconds gone by that no update has used up.
    pub fn accumulated(&self) -> (nanos: u64)
        ensures
            nanos == self.pending(),
            nanos < FRAME_NANOS,
    {
        proof {
            use_type_invariant(self);
        }
        self.accumulator
    }

    /// Takes in one pass of the loop, which answered `action` and took
    /// `elapsed` nanoseconds since the pass before. On `Stop` the loop ends:
    /// the answer is `None` and the clock stays as it is. Otherwise the time
    /// is added to what was pending, every whole time step in the sum is an
    /// update that is due, and the sleep fills the time step that has begun.
    pub fn tick(&mut self, action: Action, elapsed: u64) -> (pace: Option<Pace>)
        ensures
            action == Action::Stop ==> pace is None && final(self).pending() == old(
                self,
            ).pending(),
            action == Action::Continue ==> {
                &&& final(self).pending() == (old(self).pending() + elapsed) % (FRAME_NANOS as int)
                &&& pace == Some(
                    Pace {
                        updates: ((old(self).pending() + elapsed) / (FRAME_NANOS as int)) as u64,
                        sleep: (FRAME_NANOS - final(self).pending()) as u64,
                    },
                )
            },
            final(self).pending() < FRAME_NANOS,
    {
        proof {
            use_type_invariant(&*self);
        }
        match action {
            Action::Stop => None,
            Action::Continue => {
                let total: u128 = self.accumulator as u128 + elapsed as u128;
                let updates: u64 = (total / FRAME_NANOS as u128) as u64;
                let rest: u64 = (total % FRAME_NANOS as u128) as u64;
                self.accumulator = rest;
                Some(Pace { updates, sleep: FRAME_NANOS - rest })
            },
        }
    }
}

} // verus!
