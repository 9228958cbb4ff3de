use vstd::prelude::*;

verus! {

/// A simulation state whose raw data can be recorded: it reports the
/// number of complex samples it holds.
pub trait FftSource: Clone + Sized {
    /// Number of samples held.
    spec fn spec_data_len(&self) -> nat;

    /// Number of samples held.
    fn data_len(&self) -> (n: usize)
        ensures
            n == self.spec_data_len(),
    ;
}

impl<T: Clone> FftSource for Vec<T> {
    open spec fn spec_data_len(&self) -> nat {
        self@.len()
    }

    fn data_len(&self) -> (n: usize) {
        self.len()
    }
}

/// The states recorded so far, and the number of samples per state.
#[derive(Clone, Debug)]
pub struct StoredHistory<S: FftSource> {
    data: Vec<S>,
    dim: usize,
}

impl<S: FftSource> StoredHistory<S> {
    /// The recorded states, oldest first.
    pub closed spec fn entries(&self) -> Seq<S> {
        self.data@
    }

    /// Number of samples per recorded state (that of the first one).
    pub closed spec fn spec_dim(&self) -> usize {
        self.dim
    }

    /// Starts a record with the given states; the sample count is that of
    /// the first one.
    pub fn new(data: Vec<S>) -> (r: Self)
        requires
            data@.len() > 0,
        ensures
            r.entries() == data@,
            r.spec_dim() == data@[0].spec_data_len(),
    {
        let dim = data[0].data_len();
        StoredHistory { data, dim }
    }

    /// Appends a copy of `data`.
    pub fn push(&mut self, data: &S)
        ensures
            final(self).entries().len() == old(self).entries().len() + 1,
            final(self).entries().drop_last() == old(self).entries(),
            cloned::<S>(*data, final(self).entries().last()),
            final(self).spec_dim() == old(self).spec_dim(),
    {
        self.data.push(data.clone());
        assert(self.data@.drop_last() =~= old(self).data@);
    }

    /// The recorded states and the number of samples per state.
    pub fn data_size(&self) -> (r: (&[S], usize))
        ensures
            r.0@ == self.entries(),
            r.1 == self.spec_dim(),
    {
        (self.data.as_slice(), self.dim)
    }
}

/// Recording of the simulation history: off, armed, or recording.
#[derive(Clone, Debug)]
pub enum History<S: FftSource> {
    Inactive,
    ReadyToRecord,
    Recording(StoredHistory<S>),
}

/// The recording after `active`: an inactive one is armed, others stay.
pub open spec fn activated<S: FftSource>(h: History<S>) -> History<S> {
    match h {
        History::Inactive => History::ReadyToRecord,
        _ => h,
    }
}

impl<S: FftSource> History<S> {
    /// An inactive recording.
    pub fn new() -> (r: Self)
        ensures
            r is Inactive,
    {
        History::Inactive
    }

    /// Whether recording is armed or running.
    pub fn is_active(&self) -> (r: bool)
        ensures
            r == !(self is Inactive),
    {
        match self {
            History::Inactive => false,
            _ => true,
        }
    }

    /// Arms an inactive recording; an armed or running one is left as it is.
    pub fn active(&mut self)
        ensures
            *final(self) == activated(*old(self)),
    {
        if let History::Inactive = self {
            *self = History::ReadyToRecord;
        }
    }

    /// Records a copy of `data`: nothing happens when inactive, an armed
    /// recording starts with this one state, a running one appends it.
    pub fn push(&mut self, data: &S)
        ensures
            pushed(*old(self), *data, *final(self)),
            match *old(self) {
                History::Inactive => *final(self) == *old(self),
                History::ReadyToRecord => match *final(self) {
                    History::Recording(h) => {
                        &&& h.entries().len() == 1
                        &&& cloned::<S>(*data, h.entries()[0])
                        &&& h.spec_dim() == h.entries()[0].spec_data_len()
                    },
                    _ => false,
                },
                History::Recording(h0) => match *final(self) {
                    History::Recording(h) => {
                        &&& h.entries().len() == h0.entries().len() + 1
                        &&& h.entries().drop_last() == h0.entries()
                        &&& cloned::<S>(*data, h.entries().last())
                        &&& h.spec_dim() == h0.spec_dim()
                    },
                    _ => false,
                },
            },
    {
        match self {
            History::Inactive => {},
            History::ReadyToRecord => {
                let mut v: Vec<S> = Vec::new();
                v.push(data.clone());
                *self = History::Recording(StoredHistory::new(v));
            },
            History::Recording(history) => {
                history.push(data);
            },
        }
    }

    /// The recorded states and the number of samples per state, while
    /// recording.
    pub fn get_data_size(&self) -> (r: Option<(&[S], usize)>)
        ensures
            match *self {
                History::Recording(h) => r matches Some((d, n)) && d@ == h.entries() && n
                    == h.spec_dim(),
                _ => r is None,
            },
    {
        match self {
            History::Inactive => None,
            History::ReadyToRecord => None,
            History::Recording(history) => Some(history.data_size()),
        }
    }

    /// Whether the state of this frame is to be recorded: while the
    /// simulation runs, and once when the recording has just been armed.
    pub fn wants_frame(&self, running: bool) -> (r: bool)
        ensures
            r == (running || *self is ReadyToRecord),
    {
        running || match self {
            History::ReadyToRecord => true,
            _ => false,
        }
    }

    /// After the model changed shape, an active recording starts over from
    /// the given state; an inactive one stays off.
    pub fn restart_with(&mut self, data: &S)
        ensures
            *old(self) is Inactive ==> *final(self) is Inactive,
            !(*old(self) is Inactive) ==> match *final(self) {
                History::Recording(h) => {
                    &&& h.entries().len() == 1
                    &&& cloned::<S>(*data, h.entries()[0])
                    &&& h.spec_dim() == h.entries()[0].spec_data_len()
                },
                _ => false,
            },
    {
        if self.is_active() {
            self.reset();
            self.active();
            self.push(data);
        }
    }

    /// The record switch: on arms the recording (keeping one that runs),
    /// off stops and discards it.
    pub fn set_recording(&mut self, on: bool)
        ensures
            on ==> *final(self) == activated(*old(self)),
            !on ==> *final(self) is Inactive,
    {
        if on {
            self.active();
        } else {
            self.reset();
        }
    }

    /// Stops and discards the recording.
    pub fn reset(&mut self)
        ensures
            *final(self) is Inactive,
    {
        *self = History::Inactive;
    }
}

impl<S: FftSource> Default for History<S> {
    fn default() -> (r: Self)
        ensures
            r is Inactive,
    {
        History::Inactive
    }
}

/// `after` is what pushing a copy of `data` onto the recording `before`
/// gives.
pub open spec fn pushed<S: FftSource>(before: History<S>, data: S, after: History<S>) -> bool {
    match before {
        History::Inactive => after == before,
        History::ReadyToRecord => match after {
            History::Recording(h) => {
                &&& h.entries().len() == 1
                &&& cloned::<S>(data, h.entries()[0])
                &&& h.spec_dim() == h.entries()[0].spec_data_len()
            },
            _ => false,
        },
        History::Recording(h0) => match after {
            History::Recording(h) => {
                &&& h.entries().len() == h0.entries().len() + 1
                &&& h.entries().drop_last() == h0.entries()
                &&& cloned::<S>(data, h.entries().last())
                &&& h.spec_dim() == h0.spec_dim()
            },
            _ => false,
        },
    }
}

/// A call made on a recording: `active`, `push` of a state, or `reset`.
pub enum HistoryCall<S> {
    Arm,
    Push(S),
    Reset,
}

/// `after` is what the call `c` makes of the recording `before`, as the
/// contracts of `active`, `push` and `reset` state it.
pub open spec fn history_step<S: FftSource>(
    before: History<S>,
    c: HistoryCall<S>,
    after: History<S>,
) -> bool {
    match c {
        HistoryCall::Arm => after == activated(before),
        HistoryCall::Push(d) => pushed(before, d, after),
        HistoryCall::Reset => after is Inactive,
    }
}

/// Whether the recording is armed or running after `calls`, starting from
/// an inactive one.
pub open spec fn active_after<S>(calls: Seq<HistoryCall<S>>) -> bool
    decreases calls.len(),
{
    if calls.len() == 0 {
        false
    } else {
        match calls.last() {
            HistoryCall::Arm => true,
            HistoryCall::Reset => false,
            HistoryCall::Push(_) => active_after(calls.drop_last()),
        }
    }
}

/// The states pushed since the recording last left the inactive state,
/// in call order.
pub open spec fn pushed_since_armed<S>(calls: Seq<HistoryCall<S>>) -> Seq<S>
    decreases calls.len(),
{
    if calls.len() == 0 {
        Seq::empty()
    } else {
        match calls.last() {
            HistoryCall::Arm => pushed_since_armed(calls.drop_last()),
            HistoryCall::Reset => Seq::empty(),
            HistoryCall::Push(d) => if active_after(calls.drop_last()) {
                pushed_since_armed(calls.drop_last()).push(d)
            } else {
                Seq::empty()
            },
        }
    }
}

/// The recording `h` is what `calls` make of an inactive one: off when not
/// armed, armed and empty before the first push, otherwise holding copies
/// of exactly the states pushed since arming, with the sample count of the
/// first.
pub open spec fn records<S: FftSource>(h: History<S>, calls: Seq<HistoryCall<S>>) -> bool {
    match h {
        History::Inactive => !active_after(calls),
        History::ReadyToRecord => active_after(calls) && pushed_since_armed(calls).len() == 0,
        History::Recording(s) => {
            &&& active_after(calls)
            &&& s.entries().len() == pushed_since_armed(calls).len()
            &&& s.entries().len() > 0
            &&& forall|j: int|
                0 <= j < s.entries().len() ==> cloned::<S>(
                    #[trigger] pushed_since_armed(calls)[j],
                    s.entries()[j],
                )
            &&& s.spec_dim() == s.entries()[0].spec_data_len()
        },
    }
}

proof fn lemma_history_step<S: FftSource>(
    h: History<S>,
    calls: Seq<HistoryCall<S>>,
    c: HistoryCall<S>,
    h2: History<S>,
)
    requires
        records(h, calls),
        history_step(h, c, h2),
    ensures
        records(h2, calls.push(c)),
{
    let calls2 = calls.push(c);
    assert(calls2.drop_last() =~= calls);
    assert(calls2.last() == c);
    match c {
        HistoryCall::Push(d) => {
            match h {
                History::Recording(s0) => {
                    match h2 {
                        History::Recording(s) => {
                            let p = pushed_since_armed(calls2);
                            assert(p =~= pushed_since_armed(calls).push(d));
                            assert forall|j: int| 0 <= j < s.entries().len() implies cloned::<S>(
                                #[trigger] p[j],
                                s.entries()[j],
                            ) by {
                                if j < s0.entries().len() {
                                    assert(s.entries()[j] == s.entries().drop_last()[j]);
                                    assert(p[j] == pushed_since_armed(calls)[j]);
                                }
                            }
                            assert(s.entries()[0] == s.entries().drop_last()[0]);
                        },
                        _ => {},
                    }
                },
                History::ReadyToRecord => {
                    match h2 {
                        History::Recording(s) => {
                            let p = pushed_since_armed(calls2);
                            assert(p =~= seq![d]);
                            assert forall|j: int| 0 <= j < s.entries().len() implies cloned::<S>(
                                #[trigger] p[j],
                                s.entries()[j],
                            ) by {}
                        },
                        _ => {},
                    }
                },
                History::Inactive => {},
            }
        },
        _ => {},
    }
}

proof fn lemma_history_prefix<S: FftSource>(
    states: Seq<History<S>>,
    calls: Seq<HistoryCall<S>>,
    n: int,
)
    requires
        states.len() == calls.len() + 1,
        states[0] is Inactive,
        forall|i: int| 0 <= i < calls.len() ==> history_step(#[trigger] states[i], calls[i], states[i + 1]),
        0 <= n <= calls.len(),
    ensures
        records(states[n], calls.take(n)),
    decreases n,
{
    if n == 0 {
        assert(calls.take(0) =~= Seq::<HistoryCall<S>>::empty());
    } else {
        lemma_history_prefix(states, calls, n - 1);
        assert(history_step(states[n - 1], calls[n - 1], states[n]));
        lemma_history_step(states[n - 1], calls.take(n - 1), calls[n - 1], states[n]);
        assert(calls.take(n - 1).push(calls[n - 1]) =~= calls.take(n));
    }
}

/// Starting from an inactive recording, after any run of `active`, `push`
/// and `reset` calls the recording is off exactly when it is not armed,
/// and while it records it holds copies of exactly the states pushed since
/// it was last armed, in call order, with the sample count of the first.
pub proof fn history_records_pushes_since_armed<S: FftSource>(
    states: Seq<History<S>>,
    calls: Seq<HistoryCall<S>>,
)
    requires
        states.len() == calls.len() + 1,
        states[0] is Inactive,
        forall|i: int| 0 <= i < calls.len() ==> history_step(#[trigger] states[i], calls[i], states[i + 1]),
    ensures
        forall|i: int| 0 <= i < states.len() ==> records(#[trigger] states[i], calls.take(i)),
{
    assert forall|i: int| 0 <= i < states.len() implies records(#[trigger] states[i], calls.take(i)) by {
        lemma_history_prefix(states, calls, i);
    }
}

/// Arming a recording always makes it active, and arming twice is the same
/// as arming once.
pub proof fn activation_is_idempotent<S: FftSource>(h: History<S>)
    ensures
        !(activated(h) is Inactive),
        activated(activated(h)) == activated(h),
{
}

} // verus!
