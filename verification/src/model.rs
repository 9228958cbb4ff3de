use vstd::prelude::*;
use crate::checkpoint::{CheckPoint, Restorable};
use crate::file::Extension;

verus! {

/// Read access to the live state of a simulator, for monitoring and
/// drawing.
pub trait SharedState<'a> {
    type SharedState: 'a;

    fn states(&'a self) -> Self::SharedState;

    fn set_state(&mut self, state: Self::SharedState);
}

/// Saving and restoring the state of a simulator.
pub trait StoreState: Sized {
    type OwnedState;

    /// The state this simulator holds, as saving it hands it out.  A
    /// simulator states its own rule here; by default it is left unknown.
    open spec fn owned_state(&self) -> Self::OwnedState {
        vstd::pervasive::arbitrary()
    }

    /// Whether this simulator takes `state` when given it (a simulator may
    /// refuse a state that does not fit it).  By default every state is
    /// taken.
    open spec fn accepts_state(&self, state: Self::OwnedState) -> bool {
        true
    }

    fn get_owned_state(&self) -> (r: Self::OwnedState)
        ensures
            r == self.owned_state(),
    ;

    /// Takes `state`, or leaves the simulator as it was when it refuses it.
    fn set_owned_state(&mut self, state: Self::OwnedState)
        ensures
            old(self).accepts_state(state) ==> final(self).owned_state() == state,
            !old(self).accepts_state(state) ==> *final(self) == *old(self),
    ;

    fn default_state(dim: usize) -> Self::OwnedState;
}

/// A simulator that can be run, perturbed by noise and inspected.
pub trait Simulator: Sized + for<'a> SharedState<'a> + StoreState {
    /// The source of the noise added to the state.
    type Noise: Default + Clone;

    /// Whether `after`, with the noise source left as `noise_after`, is
    /// what adding noise drawn from `noise` to `before` gives.  A simulator
    /// states its own rule here; by default nothing is claimed.
    open spec fn adds_noise(
        before: Self,
        noise: Self::Noise,
        after: Self,
        noise_after: Self::Noise,
    ) -> bool {
        true
    }

    fn add_rand(&mut self, random: &mut Self::Noise)
        ensures
            Self::adds_noise(*old(self), *old(random), *final(self), *final(random)),
    ;

    fn run(&mut self, steps: u32);

    fn cur_step(&self) -> u32;
}

/// The parameters of a model, which build and steer its simulator.
pub trait Controller<E: Simulator>: Sized {
    /// Whether `engine` is a simulator of dimension `dim` built from these
    /// parameters.  Parameters state their own rule here; by default nothing
    /// is claimed.
    open spec fn builds(&self, dim: usize, engine: E) -> bool {
        true
    }

    /// Whether handing the parameters `before` to the simulator
    /// `engine_before` leaves parameters `after` and simulator
    /// `engine_after`.  By default nothing is claimed.
    open spec fn syncs(before: Self, after: Self, engine_before: E, engine_after: E) -> bool {
        true
    }

    fn construct_engine(&self, dim: usize) -> (e: E)
        ensures
            self.builds(dim, e),
    ;

    /// Builds a simulator and adds noise drawn from `rand` to its initial
    /// state.
    fn construct_engine_random_init(&self, dim: usize, rand: &mut E::Noise) -> (e: E)
        ensures
            exists|e0: E|
                #[trigger] self.builds(dim, e0) && E::adds_noise(e0, *old(rand), e, *final(rand)),
    {
        let mut e = self.construct_engine(dim);
        let ghost e0 = e;
        e.add_rand(rand);
        assert(self.builds(dim, e0));
        e
    }

    fn sync_paras(&mut self, engine: &mut E)
        ensures
            Self::syncs(*old(self), *final(self), *old(engine), *final(engine)),
    ;

    fn steps(&self) -> u32;
}

/// A model: its dimension, its parameters, its simulator and its noise.
pub struct Core<C, S: Simulator> {
    pub dim: usize,
    pub controller: C,
    pub simulator: S,
    pub random: S::Noise,
}

/// What is saved of a model: the simulator's state in place of the
/// simulator.
pub struct CoreStorage<P, S: Simulator> {
    pub dim: usize,
    pub controller: P,
    pub simulator_state: S::OwnedState,
    pub random: S::Noise,
}

/// A simulator built by `controller` with dimension `dim`, to which noise
/// drawn from a fresh noise source was added, leaving the source `random`.
pub open spec fn started_from_noise<C: Controller<S>, S: Simulator>(
    controller: C,
    dim: usize,
    simulator: S,
    random: S::Noise,
) -> bool {
    exists|n0: S::Noise, e0: S|
        #![trigger S::adds_noise(e0, n0, simulator, random)]
        call_ensures(S::Noise::default, (), n0) && controller.builds(dim, e0) && S::adds_noise(
            e0,
            n0,
            simulator,
            random,
        )
}

/// `simulator` is a simulator built by `controller` for dimension `dim`
/// that was then given `state`: it holds that state, or, where the built
/// simulator refused it, is the built simulator itself.
pub open spec fn loaded_into<C: Controller<S>, S: Simulator>(
    controller: C,
    dim: usize,
    state: S::OwnedState,
    simulator: S,
) -> bool {
    exists|e0: S|
        #[trigger] controller.builds(dim, e0) && (e0.accepts_state(state)
            ==> simulator.owned_state() == state) && (!e0.accepts_state(state) ==> simulator
            == e0)
}

impl<C: Controller<S>, S: Simulator> Core<C, S> {
    /// A model of dimension `dim` with the given parameters, whose simulator
    /// starts from noise.
    pub fn new(controller: C, dim: usize) -> (r: Self)
        ensures
            r.dim == dim,
            r.controller == controller,
            started_from_noise(r.controller, r.dim, r.simulator, r.random),
    {
        let mut random = S::Noise::default();
        let ghost n0 = random;
        let simulator = controller.construct_engine_random_init(dim, &mut random);
        let ghost e0 = choose|e0: S|
            #[trigger] controller.builds(dim, e0) && S::adds_noise(e0, n0, simulator, random);
        assert(S::adds_noise(e0, n0, simulator, random));
        Core { controller, dim, simulator, random }
    }

    /// Hands the current parameters to the simulator.
    pub fn sync_paras(&mut self)
        ensures
            final(self).dim == old(self).dim,
            final(self).random == old(self).random,
            C::syncs(
                old(self).controller,
                final(self).controller,
                old(self).simulator,
                final(self).simulator,
            ),
    {
        self.controller.sync_paras(&mut self.simulator);
    }

    /// Adds noise from the model's noise source to the simulator's state.
    pub fn add_random(&mut self)
        ensures
            final(self).dim == old(self).dim,
            final(self).controller == old(self).controller,
            S::adds_noise(
                old(self).simulator,
                old(self).random,
                final(self).simulator,
                final(self).random,
            ),
    {
        self.simulator.add_rand(&mut self.random);
    }

    /// Rebuilds the model from default parameters, keeping its dimension:
    /// a new simulator starts from fresh noise.
    pub fn reset(&mut self)
        where C: Default,
        ensures
            final(self).dim == old(self).dim,
            call_ensures(C::default, (), final(self).controller),
            started_from_noise(
                final(self).controller,
                final(self).dim,
                final(self).simulator,
                final(self).random,
            ),
    {
        *self = Self::new(C::default(), self.dim);
    }

    /// Rebuilds a model from what was saved: a simulator built from the
    /// saved parameters takes the saved state.
    pub fn from_storage(storage: CoreStorage<C, S>) -> (r: Self)
        ensures
            r.dim == storage.dim,
            r.controller == storage.controller,
            r.random == storage.random,
            loaded_into(storage.controller, storage.dim, storage.simulator_state, r.simulator),
    {
        let mut e = storage.controller.construct_engine(storage.dim);
        let ghost e0 = e;
        e.set_owned_state(storage.simulator_state);
        assert(storage.controller.builds(storage.dim, e0));
        Core {
            dim: storage.dim,
            controller: storage.controller,
            simulator: e,
            random: storage.random,
        }
    }
}

impl<C: Clone, S: Simulator> CoreStorage<C, S> {
    /// What is saved of a model.
    pub fn from_core(core: &Core<C, S>) -> (r: Self)
        ensures
            r.dim == core.dim,
            cloned::<C>(core.controller, r.controller),
            cloned::<S::Noise>(core.random, r.random),
            r.simulator_state == core.simulator.owned_state(),
    {
        CoreStorage {
            dim: core.dim,
            controller: core.controller.clone(),
            simulator_state: core.simulator.get_owned_state(),
            random: core.random.clone(),
        }
    }
}

impl<C: Clone + Controller<S>, S: Simulator> Restorable for Core<C, S> where S::OwnedState: Clone {
    type Store = CoreStorage<C, S>;

    /// A checkpoint of a model has no name and holds its dimension, clones
    /// of its parameters and noise source, and its simulator's state.
    open spec fn saves(&self, checkpoint: CheckPoint<CoreStorage<C, S>>) -> bool {
        &&& checkpoint.name is None
        &&& checkpoint.state.dim == self.dim
        &&& cloned::<C>(self.controller, checkpoint.state.controller)
        &&& cloned::<S::Noise>(self.random, checkpoint.state.random)
        &&& checkpoint.state.simulator_state == self.simulator.owned_state()
    }

    /// The model takes the saved dimension and clones of the saved
    /// parameters and noise source, and its simulator is built anew from
    /// those parameters and given a clone of the saved state.
    open spec fn restores(
        before: Self,
        checkpoint: CheckPoint<CoreStorage<C, S>>,
        after: Self,
    ) -> bool {
        &&& after.dim == checkpoint.state.dim
        &&& cloned::<C>(checkpoint.state.controller, after.controller)
        &&& cloned::<S::Noise>(checkpoint.state.random, after.random)
        &&& exists|st: S::OwnedState|
            #[trigger] cloned::<S::OwnedState>(checkpoint.state.simulator_state, st)
                && loaded_into(after.controller, after.dim, st, after.simulator)
    }

    fn checkpoint(&self) -> (c: CheckPoint<CoreStorage<C, S>>)
        ensures
            c.name is None,
            c.state.dim == self.dim,
            cloned::<C>(self.controller, c.state.controller),
            cloned::<S::Noise>(self.random, c.state.random),
    {
        CheckPoint { name: None, state: CoreStorage::from_core(self) }
    }

    fn restore_by_ref(&mut self, checkpoint: &CheckPoint<CoreStorage<C, S>>)
        ensures
            final(self).dim == checkpoint.state.dim,
            cloned::<C>(checkpoint.state.controller, final(self).controller),
            cloned::<S::Noise>(checkpoint.state.random, final(self).random),
    {
        let s = &checkpoint.state;
        let st = s.simulator_state.clone();
        let storage = CoreStorage {
            dim: s.dim,
            controller: s.controller.clone(),
            simulator_state: st,
            random: s.random.clone(),
        };
        *self = Core::from_storage(storage);
        assert(cloned::<S::OwnedState>(s.simulator_state, st));
    }
}

/// Saving a model to a checkpoint and restoring a model from it gives back
/// the saved dimension and simulator state, where cloning a state gives an
/// equal state and a simulator built for the saved dimension takes the
/// saved state.
pub proof fn checkpoint_round_trip<C: Clone + Controller<S>, S: Simulator>(
    saved: Core<C, S>,
    checkpoint: CheckPoint<CoreStorage<C, S>>,
    before: Core<C, S>,
    after: Core<C, S>,
) where S::OwnedState: Clone
    requires
        saved.saves(checkpoint),
        <Core<C, S> as Restorable>::restores(before, checkpoint, after),
        forall|a: S::OwnedState, b: S::OwnedState| #[trigger] cloned::<S::OwnedState>(a, b) ==> a == b,
        forall|p: C, e: S|
            #[trigger] p.builds(saved.dim, e) ==> e.accepts_state(saved.simulator.owned_state()),
    ensures
        after.dim == saved.dim,
        after.simulator.owned_state() == saved.simulator.owned_state(),
{
    let st = choose|st: S::OwnedState|
        #[trigger] cloned::<S::OwnedState>(checkpoint.state.simulator_state, st) && loaded_into(
            after.controller,
            after.dim,
            st,
            after.simulator,
        );
    assert(st == saved.simulator.owned_state());
    let e0 = choose|e0: S|
        #[trigger] after.controller.builds(after.dim, e0) && (e0.accepts_state(st)
            ==> after.simulator.owned_state() == st) && (!e0.accepts_state(st) ==> after.simulator
            == e0);
    assert(e0.accepts_state(st));
}

impl<C: Extension + Controller<S>, S: Simulator> Extension for Core<C, S> {
    /// A model is saved under the extension of its parameters.
    fn extension() -> (r: String)
        ensures
            call_ensures(C::extension, (), r),
    {
        C::extension()
    }
}

impl<C: Extension, S: Simulator> Extension for CoreStorage<C, S> {
    /// A saved model carries the extension of its parameters.
    fn extension() -> (r: String)
        ensures
            call_ensures(C::extension, (), r),
    {
        C::extension()
    }
}

} // verus!
