use community_sim::run_control::{ControlInput, RunControl};

#[test]
fn running_simulation_ticks_every_frame() {
    let mut control = RunControl::new();
    assert!(control.take_tick());
    assert!(control.take_tick());
    assert!(!control.paused);
}

#[test]
fn paused_simulation_does_not_tick() {
    let mut control = RunControl::new();
    control.apply(ControlInput::TogglePause);
    assert!(control.paused);
    assert!(!control.take_tick());
    assert!(!control.take_tick());
}

#[test]
fn single_step_while_paused_runs_one_tick() {
    let mut control = RunControl::new();
    control.apply(ControlInput::TogglePause);
    control.apply(ControlInput::AdvanceOneTick);
    assert!(control.take_tick());
    assert!(!control.take_tick());
    assert_eq!(control, RunControl { paused: true, advance_one: false });
}

#[test]
fn toggling_twice_resumes() {
    let mut control = RunControl::new();
    control.apply(ControlInput::TogglePause);
    control.apply(ControlInput::TogglePause);
    assert_eq!(control, RunControl::new());
    assert!(control.take_tick());
}
