use lle_gui::play::{
    check_initialization, run_simulation, toggle_running, InitPlan, PlayControl, SimulationAction,
};

fn control(reset: bool, destruct: bool, step: bool, refresh: bool) -> PlayControl {
    PlayControl { reset, destruct, step, refresh }
}

#[test]
fn reset_has_priority() {
    let p = run_simulation(control(true, true, true, true), true, true, true);
    assert_eq!(p.action, SimulationAction::Reset);
    assert!(!p.running);
    assert!(!p.refresh_views);
}

#[test]
fn destruct_returns_to_start_window() {
    let p = run_simulation(control(false, true, true, true), true, true, false);
    assert_eq!(p.action, SimulationAction::ReturnToStart);
    assert!(!p.is_init);
    assert!(p.running);
}

#[test]
fn refresh_reinitializes() {
    let p = run_simulation(control(false, false, true, true), false, true, false);
    assert_eq!(p.action, SimulationAction::Reinitialize);
    assert!(p.refresh_views);
}

#[test]
fn running_or_step_runs_a_batch() {
    let p = run_simulation(control(false, false, false, false), true, true, true);
    assert_eq!(p.action, SimulationAction::Run { add_random: true });
    let p = run_simulation(control(false, false, true, false), false, true, false);
    assert_eq!(p.action, SimulationAction::Run { add_random: false });
    assert!(p.refresh_views);
    let p = run_simulation(control(false, false, false, false), false, true, true);
    assert_eq!(p.action, SimulationAction::Idle);
    assert!(!p.refresh_views);
}

#[test]
fn start_window_starts_model() {
    assert_eq!(
        check_initialization(false, true, false),
        InitPlan { running: false, is_init: false, construct: false }
    );
    assert_eq!(
        check_initialization(false, true, true),
        InitPlan { running: false, is_init: true, construct: true }
    );
    assert_eq!(
        check_initialization(true, true, true),
        InitPlan { running: true, is_init: true, construct: false }
    );
    assert!(toggle_running(false));
    assert!(!toggle_running(true));
}
