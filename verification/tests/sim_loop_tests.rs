use community_sim::sim_loop::{loop_action, AsciiRenderer, LoopAction};

fn all_actions(ticks: usize) -> Vec<LoopAction> {
    let mut out = Vec::new();
    let mut step = 0;
    while let Some(a) = loop_action(ticks, step) {
        out.push(a);
        step += 1;
    }
    out
}

#[test]
fn each_tick_runs_hooks_around_one_schedule_run() {
    assert_eq!(
        all_actions(2),
        vec![
            LoopAction::TickStart(0), LoopAction::RunSchedule(0), LoopAction::Render(0), LoopAction::HandleInput(0), LoopAction::TickEnd(0),
            LoopAction::TickStart(1), LoopAction::RunSchedule(1), LoopAction::Render(1), LoopAction::HandleInput(1), LoopAction::TickEnd(1),
            LoopAction::SimulationEnd(2),
        ]
    );
}

#[test]
fn a_run_of_no_ticks_only_ends() {
    assert_eq!(all_actions(0), vec![LoopAction::SimulationEnd(0)]);
    assert_eq!(loop_action(0, 1), None);
}

#[test]
fn schedule_runs_once_per_tick() {
    let actions = all_actions(7);
    let runs = actions.iter().filter(|a| matches!(a, LoopAction::RunSchedule(_))).count();
    assert_eq!(runs, 7);
    assert_eq!(actions.len(), 36);
    assert_eq!(loop_action(7, 36), None);
}

#[test]
fn ascii_frames_every_fifty_ticks() {
    let r = AsciiRenderer;
    assert_eq!(r.frame(0, Some("..\n")), Some("[ASCII] Tick 0:\n..\n".to_string()));
    assert_eq!(r.frame(50, None), Some("[ASCII] Tick 50: (map missing, cannot render)".to_string()));
    assert_eq!(r.frame(49, Some("..\n")), None);
}
