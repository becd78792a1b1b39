//! The simulation loop: which call comes at each step of a run of `ticks`
//! ticks. Each tick calls the profiler's start hook, runs the schedule once,
//! renders, handles input and calls the profiler's end hook; the run ends
//! with the profiler's end-of-run hook. The caller performs the calls.
use vstd::prelude::*;
use vstd::string::StringExecFns;
use crate::text::decimal_digits;
use crate::text::push_decimal;

verus! {

/// One call of the simulation loop.
#[derive(Debug, Clone, Copy, PartialEq, Eq)]
pub enum LoopAction {
    /// The profiler's hook at the start of the tick.
    TickStart(usize),
    /// One run of the schedule on the world and resources.
    RunSchedule(usize),
    /// The renderer, after the tick's schedule run.
    Render(usize),
    /// The input handler, after rendering.
    HandleInput(usize),
    /// The profiler's hook at the end of the tick.
    TickEnd(usize),
    /// The profiler's hook at the end of the run, with the number of ticks.
    SimulationEnd(usize),
}

/// Phase `p` (0 to 4) of tick `t`.
pub open spec fn phase_action(p: int, t: usize) -> LoopAction {
    if p == 0 {
        LoopAction::TickStart(t)
    } else if p == 1 {
        LoopAction::RunSchedule(t)
    } else if p == 2 {
        LoopAction::Render(t)
    } else if p == 3 {
        LoopAction::HandleInput(t)
    } else {
        LoopAction::TickEnd(t)
    }
}

/// The calls of a run of `ticks` ticks, in order: five per tick, call `k`
/// being phase `k % 5` of tick `k / 5`, then the end-of-run hook.
pub open spec fn loop_actions(ticks: usize) -> Seq<LoopAction> {
    Seq::new(
        (5 * ticks + 1) as nat,
        |k: int|
            if k < 5 * ticks {
                phase_action(k % 5, (k / 5) as usize)
            } else {
                LoopAction::SimulationEnd(ticks)
            },
    )
}

/// The call at position `step` of a run of `ticks` ticks, or `None` once the
/// run is over.
pub fn loop_action(ticks: usize, step: usize) -> (action: Option<LoopAction>)
    ensures
        action == if step < loop_actions(ticks).len() {
            Some(loop_actions(ticks)[step as int])
        } else {
            None::<LoopAction>
        },
{
    let t = step / 5;
    let p = step % 5;
    assert(step == 5 * t + p) by (nonlinear_arith)
        requires
            t == step / 5,
            p == step % 5,
    ;
    if t < ticks {
        assert(step < 5 * ticks);
        let action = if p == 0 {
            LoopAction::TickStart(t)
        } else if p == 1 {
            LoopAction::RunSchedule(t)
        } else if p == 2 {
            LoopAction::Render(t)
        } else if p == 3 {
            LoopAction::HandleInput(t)
        } else {
            LoopAction::TickEnd(t)
        };
        Some(action)
    } else if t == ticks && p == 0 {
        Some(LoopAction::SimulationEnd(ticks))
    } else {
        None
    }
}

/// Every tick runs its five calls in order, start hook, schedule,
/// rendering, input, end hook, before any call of the next tick.
pub proof fn lemma_tick_calls_in_order(ticks: usize, t: usize)
    requires
        t < ticks,
    ensures
        loop_actions(ticks).subrange(5 * t, 5 * t + 5) == seq![
            LoopAction::TickStart(t),
            LoopAction::RunSchedule(t),
            LoopAction::Render(t),
            LoopAction::HandleInput(t),
            LoopAction::TickEnd(t),
        ],
{
    let s = loop_actions(ticks).subrange(5 * t, 5 * t + 5);
    assert forall|i: int| 0 <= i < 5 implies s[i] == phase_action(i, t) by {
        let k = 5 * t + i;
        assert(k % 5 == i && k / 5 == t) by (nonlinear_arith)
            requires
                k == 5 * t + i,
                0 <= i < 5,
        ;
    }
    assert(s =~= seq![
        LoopAction::TickStart(t),
        LoopAction::RunSchedule(t),
        LoopAction::Render(t),
        LoopAction::HandleInput(t),
        LoopAction::TickEnd(t),
    ]);
}

/// The schedule runs exactly once per tick: tick `t`'s run is call
/// `5 * t + 1`, and no other call runs the schedule.
pub proof fn lemma_schedule_runs_once_per_tick(ticks: usize, k: int, t: usize)
    requires
        0 <= k < loop_actions(ticks).len(),
    ensures
        loop_actions(ticks)[k] == LoopAction::RunSchedule(t) <==> (t < ticks && k == 5 * t + 1),
{
    if k < 5 * ticks {
        assert(k == 5 * (k / 5) + k % 5 && 0 <= k % 5 < 5 && 0 <= k / 5 < ticks) by (nonlinear_arith)
            requires
                0 <= k < 5 * ticks,
        ;
        if t < ticks && k == 5 * t + 1 {
            assert(k % 5 == 1 && k / 5 == t) by (nonlinear_arith)
                requires
                    k == 5 * t + 1,
            ;
        }
    }
}

/// The end-of-run hook comes last, once, with the number of ticks.
pub proof fn lemma_run_ends_once(ticks: usize, k: int)
    requires
        0 <= k < loop_actions(ticks).len(),
    ensures
        loop_actions(ticks)[k] is SimulationEnd <==> k == 5 * ticks,
        loop_actions(ticks).last() == LoopAction::SimulationEnd(ticks),
{
}

/// What the loop reports when it is done.
#[derive(Debug)]
pub struct SimulationStats {
    pub ticks_run: usize,
}

/// A renderer that draws nothing.
pub struct NoOpRenderer;

/// An input handler that reads nothing.
pub struct NoOpInput;

/// A profiler that records nothing.
pub struct NoOpProfiler;

/// A renderer for headless runs that prints the map every 50 ticks.
pub struct AsciiRenderer;

/// What the ASCII renderer prints at `tick`: on every 50th tick a heading
/// with the tick and the snapshot, or a notice when there is no map.
pub open spec fn ascii_frame_text(tick: usize, snapshot: Option<Seq<char>>) -> Option<Seq<char>> {
    if tick % 50 == 0 {
        Some(
            "[ASCII] Tick "@ + decimal_digits(tick as nat) + match snapshot {
                Some(ascii) => ":\n"@ + ascii,
                None => ": (map missing, cannot render)"@,
            },
        )
    } else {
        None
    }
}

/// The characters of a snapshot, if there is one.
pub open spec fn snapshot_view(snapshot: Option<&str>) -> Option<Seq<char>> {
    match snapshot {
        Some(s) => Some(s@),
        None => None,
    }
}

impl AsciiRenderer {
    /// The text to print at `tick`, given the ASCII snapshot of the map when
    /// there is a map.
    pub fn frame(&self, tick: usize, snapshot: Option<&str>) -> (text: Option<String>)
        ensures
            match text {
                Some(t) => ascii_frame_text(tick, snapshot_view(snapshot)) == Some(t@),
                None => ascii_frame_text(tick, snapshot_view(snapshot)) is None,
            },
    {
        if tick % 50 != 0 {
            return None;
        }
        let mut text = String::new();
        text.append("[ASCII] Tick ");
        push_decimal(&mut text, tick);
        match snapshot {
            Some(ascii) => {
                text.append(":\n");
                text.append(ascii);
            },
            None => {
                text.append(": (map missing, cannot render)");
            },
        }
        Some(text)
    }
}

} // verus!
