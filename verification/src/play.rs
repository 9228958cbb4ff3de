use vstd::prelude::*;

verus! {

/// The buttons pressed in the control panel during one frame.
#[derive(Clone, Copy, PartialEq, Eq, Debug)]
pub struct PlayControl {
    pub reset: bool,
    pub destruct: bool,
    pub step: bool,
    pub refresh: bool,
}

/// What the frame does to the model.
#[derive(Clone, Copy, PartialEq, Eq, Debug)]
pub enum SimulationAction {
    /// Rebuild the model from default parameters, clear the views and the
    /// file managers.
    Reset,
    /// Go back to the start window and clear the views.
    ReturnToStart,
    /// Rebuild the simulator from the current parameters with fresh noise.
    Reinitialize,
    /// Synchronise parameters, add noise when asked, and run one batch of
    /// steps.
    Run { add_random: bool },
    /// Nothing.
    Idle,
}

/// The outcome of a frame: the action, whether the simulation runs and has
/// been started, and whether the views must be redrawn.
#[derive(Clone, Copy, PartialEq, Eq, Debug)]
pub struct SimulationPlan {
    pub action: SimulationAction,
    pub running: bool,
    pub is_init: bool,
    pub refresh_views: bool,
}

/// The plan of a frame: reset, then return-to-start, then refresh take
/// precedence in that order; otherwise a running simulation, or a pressed
/// step button, runs one batch.
pub open spec fn simulation_plan(
    control: PlayControl,
    running: bool,
    is_init: bool,
    add_rand: bool,
) -> SimulationPlan {
    if control.reset {
        SimulationPlan {
            action: SimulationAction::Reset,
            running: false,
            is_init,
            refresh_views: false,
        }
    } else if control.destruct {
        SimulationPlan {
            action: SimulationAction::ReturnToStart,
            running,
            is_init: false,
            refresh_views: false,
        }
    } else if control.refresh {
        SimulationPlan { action: SimulationAction::Reinitialize, running, is_init, refresh_views: true }
    } else if running || control.step {
        SimulationPlan {
            action: SimulationAction::Run { add_random: add_rand },
            running,
            is_init,
            refresh_views: true,
        }
    } else {
        SimulationPlan { action: SimulationAction::Idle, running, is_init, refresh_views: false }
    }
}

/// Decides what a frame does with the model.
pub fn run_simulation(control: PlayControl, running: bool, is_init: bool, add_rand: bool) -> (plan:
    SimulationPlan)
    ensures
        plan == simulation_plan(control, running, is_init, add_rand),
{
    if control.reset {
        return SimulationPlan {
            action: SimulationAction::Reset,
            running: false,
            is_init,
            refresh_views: false,
        };
    }
    if control.destruct {
        return SimulationPlan {
            action: SimulationAction::ReturnToStart,
            running,
            is_init: false,
            refresh_views: false,
        };
    }
    if control.refresh {
        return SimulationPlan {
            action: SimulationAction::Reinitialize,
            running,
            is_init,
            refresh_views: true,
        };
    }
    if running || control.step {
        return SimulationPlan {
            action: SimulationAction::Run { add_random: add_rand },
            running,
            is_init,
            refresh_views: true,
        };
    }
    SimulationPlan { action: SimulationAction::Idle, running, is_init, refresh_views: false }
}

/// What the start window decides: before the model is started the
/// simulation is paused, and pressing the start button starts it and builds
/// a simulator (with noise).
#[derive(Clone, Copy, PartialEq, Eq, Debug)]
pub struct InitPlan {
    pub running: bool,
    pub is_init: bool,
    pub construct: bool,
}

/// Decides the start window's effect for a frame.
pub fn check_initialization(is_init: bool, running: bool, start_clicked: bool) -> (p: InitPlan)
    ensures
        is_init ==> p == (InitPlan { running, is_init: true, construct: false }),
        !is_init ==> p == (InitPlan { running: false, is_init: start_clicked, construct: start_clicked }),
{
    if is_init {
        InitPlan { running, is_init: true, construct: false }
    } else {
        InitPlan { running: false, is_init: start_clicked, construct: start_clicked }
    }
}

/// The play/pause button flips whether the simulation runs.
pub fn toggle_running(running: bool) -> (r: bool)
    ensures
        r == !running,
{
    !running
}

/// A reset overrides every other button: it always stops the simulation
/// and never runs a batch.
pub proof fn reset_overrides_other_buttons(
    control: PlayControl,
    running: bool,
    is_init: bool,
    add_rand: bool,
)
    requires
        control.reset,
    ensures
        simulation_plan(control, running, is_init, add_rand).action == SimulationAction::Reset,
        !simulation_plan(control, running, is_init, add_rand).running,
{
}

/// A batch of steps is run exactly when no reset, return or refresh is
/// pressed and the simulation runs or the step button is held; the views
/// are redrawn exactly when the model changed by a batch or a refresh.
pub proof fn batch_runs_exactly_when_playing(
    control: PlayControl,
    running: bool,
    is_init: bool,
    add_rand: bool,
)
    ensures
        (simulation_plan(control, running, is_init, add_rand).action is Run) <==> (!control.reset
            && !control.destruct && !control.refresh && (running || control.step)),
        simulation_plan(control, running, is_init, add_rand).refresh_views <==> (simulation_plan(
            control,
            running,
            is_init,
            add_rand,
        ).action is Run || simulation_plan(control, running, is_init, add_rand).action
            is Reinitialize),
{
}

/// Only the reset button stops a running simulation and nothing else
/// starts one: playing goes on through a step, a refresh, a return to the
/// start window or an idle frame.  Only returning to the start window
/// (without a reset) leaves the model uninitialised, and a batch adds noise
/// exactly when noise is switched on.
pub proof fn only_reset_stops_and_only_return_uninitialises(
    control: PlayControl,
    running: bool,
    is_init: bool,
    add_rand: bool,
)
    ensures
        simulation_plan(control, running, is_init, add_rand).running == (running && !control.reset),
        simulation_plan(control, running, is_init, add_rand).is_init == (is_init && (control.reset
            || !control.destruct)),
        simulation_plan(control, running, is_init, add_rand).action matches SimulationAction::Run {
            add_random,
        } ==> add_random == add_rand,
{
}

} // verus!
