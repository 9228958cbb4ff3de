use lle_gui::checkpoint::{CheckPoints, Restorable};
use lle_gui::file::Extension;
use lle_gui::model::{Controller, Core, CoreStorage, SharedState, Simulator, StoreState};

#[derive(Debug, Clone, Default, PartialEq)]
struct Noise {
    draws: u64,
}

#[derive(Debug, Clone)]
struct Walker {
    state: Vec<i64>,
    steps: u32,
    speed: i64,
}

impl<'a> SharedState<'a> for Walker {
    type SharedState = &'a [i64];
    fn states(&'a self) -> &'a [i64] {
        &self.state
    }
    fn set_state(&mut self, state: &'a [i64]) {
        self.state.copy_from_slice(state);
    }
}

impl StoreState for Walker {
    type OwnedState = Vec<i64>;
    fn get_owned_state(&self) -> Vec<i64> {
        self.state.clone()
    }
    fn set_owned_state(&mut self, state: Vec<i64>) {
        if state.len() == self.state.len() {
            self.state = state;
        }
    }
    fn default_state(dim: usize) -> Vec<i64> {
        vec![0; dim]
    }
}

impl Simulator for Walker {
    type Noise = Noise;
    fn add_rand(&mut self, random: &mut Noise) {
        random.draws += 1;
        for x in self.state.iter_mut() {
            *x += 1;
        }
    }
    fn run(&mut self, steps: u32) {
        self.steps += steps;
        for x in self.state.iter_mut() {
            *x += self.speed * steps as i64;
        }
    }
    fn cur_step(&self) -> u32 {
        self.steps
    }
}

#[derive(Debug, Clone, Default, PartialEq)]
struct Params {
    speed: i64,
}

impl Controller<Walker> for Params {
    fn construct_engine(&self, dim: usize) -> Walker {
        Walker { state: vec![0; dim], steps: 0, speed: self.speed }
    }
    fn sync_paras(&mut self, engine: &mut Walker) {
        engine.speed = self.speed;
    }
    fn steps(&self) -> u32 {
        10
    }
}

impl Extension for Params {
    fn extension() -> String {
        "walk".to_string()
    }
}

#[test]
fn new_model_starts_from_noise() {
    let core = Core::<Params, Walker>::new(Params { speed: 2 }, 4);
    assert_eq!(core.dim, 4);
    assert_eq!(core.controller, Params { speed: 2 });
    assert_eq!(core.random.draws, 1);
    assert_eq!(core.simulator.states(), &[1, 1, 1, 1]);
}

#[test]
fn sync_then_run_and_add_noise() {
    let mut core = Core::<Params, Walker>::new(Params { speed: 1 }, 2);
    core.controller.speed = 3;
    core.sync_paras();
    let steps = core.controller.steps();
    core.simulator.run(steps);
    assert_eq!(core.simulator.states(), &[31, 31]);
    core.add_random();
    assert_eq!(core.simulator.states(), &[32, 32]);
    assert_eq!(core.random.draws, 2);
    core.reset();
    assert_eq!(core.dim, 2);
    assert_eq!(core.controller, Params::default());
    assert_eq!(core.simulator.cur_step(), 0);
}

#[test]
fn checkpoint_round_trip_of_model() {
    let mut core = Core::<Params, Walker>::new(Params { speed: 1 }, 3);
    core.simulator.run(5);
    let mut cps: CheckPoints<CoreStorage<Params, Walker>> = CheckPoints::new();
    cps.add(&mut core);
    core.controller.speed = 9;
    core.simulator.run(5);
    assert_eq!(core.simulator.states(), &[11, 11, 11]);
    cps.restore(&mut core, 0);
    assert_eq!(core.simulator.states(), &[6, 6, 6]);
    assert_eq!(core.controller.speed, 1);
    let c = core.checkpoint();
    assert!(c.name.is_none());
    assert_eq!(c.state.simulator_state, vec![6, 6, 6]);
}

#[test]
fn storage_rebuilds_model() {
    let core = Core::<Params, Walker>::new(Params { speed: 4 }, 2);
    let storage = CoreStorage::from_core(&core);
    assert_eq!(storage.dim, 2);
    let back = Core::from_storage(storage);
    assert_eq!(back.simulator.states(), &[1, 1]);
    assert_eq!(back.controller.speed, 4);
    assert_eq!(Core::<Params, Walker>::extension(), "walk");
    assert_eq!(CheckPoints::<CoreStorage<Params, Walker>>::extension(), "walk.cp");
}
