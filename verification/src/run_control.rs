//! Pausing and single-stepping the interactive simulation: the input that
//! changes how the simulation advances, and the per-frame decision whether
//! to run a tick.
use vstd::prelude::*;

verus! {

/// Whether the simulation is paused, and whether a single step was asked for.
#[derive(Debug, Clone, Copy, PartialEq, Eq)]
pub struct RunControl {
    pub paused: bool,
    pub advance_one: bool,
}

/// The inputs that change how the simulation advances.
#[derive(Debug, Clone, Copy, PartialEq, Eq)]
pub enum ControlInput {
    /// Pause a running simulation, or resume a paused one.
    TogglePause,
    /// Run one tick on the next frame, also while paused.
    AdvanceOneTick,
}

impl RunControl {
    /// A running simulation with no step pending.
    pub fn new() -> (control: Self)
        ensures
            !control.paused,
            !control.advance_one,
    {
        RunControl { paused: false, advance_one: false }
    }

    /// Applies one input.
    pub fn apply(&mut self, input: ControlInput)
        ensures
            *final(self) == applied(*old(self), input),
    {
        match input {
            ControlInput::TogglePause => {
                self.paused = !self.paused;
            },
            ControlInput::AdvanceOneTick => {
                self.advance_one = true;
            },
        }
    }

    /// Decides whether this frame runs a tick: it does when the simulation is
    /// running or a single step is pending, and running it uses the step up.
    pub fn take_tick(&mut self) -> (run: bool)
        ensures
            (run, *final(self)) == tick_step(*old(self)),
    {
        if !self.paused || self.advance_one {
            self.advance_one = false;
            true
        } else {
            false
        }
    }
}

/// What `take_tick` decides on a given state, and the state it leaves.
pub open spec fn tick_step(control: RunControl) -> (bool, RunControl) {
    let run = !control.paused || control.advance_one;
    (run, RunControl { paused: control.paused, advance_one: control.advance_one && !run })
}

/// What `apply` makes of a state.
pub open spec fn applied(control: RunControl, input: ControlInput) -> RunControl {
    match input {
        ControlInput::TogglePause => RunControl { paused: !control.paused, ..control },
        ControlInput::AdvanceOneTick => RunControl { advance_one: true, ..control },
    }
}

/// A single step asked for while paused runs exactly one tick: the next frame
/// runs a tick and the frame after it does not, and the simulation stays paused.
pub proof fn lemma_single_step_runs_one_tick(control: RunControl)
    requires
        control.paused,
    ensures
        ({
            let stepped = applied(control, ControlInput::AdvanceOneTick);
            let (first, after_first) = tick_step(stepped);
            let (second, after_second) = tick_step(after_first);
            first && !second && after_second.paused
        }),
{
}

/// Pausing twice leaves the state as it was.
pub proof fn lemma_toggle_twice_restores(control: RunControl)
    ensures
        applied(applied(control, ControlInput::TogglePause), ControlInput::TogglePause) == control,
{
}

/// A running simulation runs a tick on every frame.
pub proof fn lemma_running_always_ticks(control: RunControl)
    requires
        !control.paused,
    ensures
        tick_step(control).0,
        !tick_step(control).1.paused,
{
}

} // verus!
