use vstd::prelude::*;

verus! {

/// The ring of delayed copies used by the self-pumping loop: `delay + 1`
/// slots of one state each, and the slot `now` that the pump reads from.
#[derive(Clone, Copy, PartialEq, Eq, Debug)]
pub struct DelayLine {
    now: usize,
    delay: usize,
}

/// The slot written by an update from position `now`, and the position
/// afterwards: an out-of-range position restarts at slot zero, and the
/// position then advances modulo the delay (staying at zero without delay).
pub open spec fn delay_step(now: usize, delay: usize) -> (usize, usize) {
    let w = if now > delay {
        0usize
    } else {
        now
    };
    let next = if delay != 0 {
        ((w + 1) % (delay as int)) as usize
    } else {
        0usize
    };
    (w, next)
}

/// The ring after storing `state` in slot `w`: first grown with `zero` to
/// hold `delay + 1` states of the state's length, then slot `w` replaced
/// by the state.
pub open spec fn stored_ring<T>(ring: Seq<T>, w: int, state: Seq<T>, delay: int, zero: T) -> Seq<T> {
    let len = state.len() as int;
    let need = len * (delay + 1);
    let grown = if ring.len() < need {
        ring + Seq::new((need - ring.len()) as nat, |i: int| zero)
    } else {
        ring
    };
    Seq::new(
        grown.len(),
        |i: int|
            if w * len <= i < (w + 1) * len {
                state[i - w * len]
            } else {
                grown[i]
            },
    )
}

impl DelayLine {
    pub closed spec fn position(&self) -> usize {
        self.now
    }

    pub closed spec fn spec_delay(&self) -> usize {
        self.delay
    }

    /// A ring at slot zero with the given delay.
    pub fn new(delay: usize) -> (d: Self)
        ensures
            d.position() == 0,
            d.spec_delay() == delay,
    {
        DelayLine { now: 0, delay }
    }

    /// A ring at the given slot (as restored from a saved state).
    pub fn with_position(now: usize, delay: usize) -> (d: Self)
        ensures
            d.position() == now,
            d.spec_delay() == delay,
    {
        DelayLine { now, delay }
    }

    /// The configured delay.
    pub fn delay(&self) -> (d: usize)
        ensures
            d == self.spec_delay(),
    {
        self.delay
    }

    /// The slot the pump currently reads.
    pub fn now(&self) -> (n: usize)
        ensures
            n == self.position(),
    {
        self.now
    }

    /// Changes the delay; the position is kept (and restarts at zero on the
    /// next update if it is out of range).
    pub fn set_delay(&mut self, delay: usize)
        ensures
            final(self).spec_delay() == delay,
            final(self).position() == old(self).position(),
    {
        self.delay = delay;
    }

    /// Number of states the ring must be able to hold.
    pub fn slots(&self) -> (n: usize)
        requires
            self.spec_delay() < usize::MAX,
        ensures
            n == self.spec_delay() + 1,
    {
        self.delay + 1
    }

    /// Number of samples the ring must hold for states of `len` samples.
    pub fn required_len(&self, len: usize) -> (n: usize)
        requires
            len * (self.spec_delay() + 1) <= usize::MAX,
        ensures
            n == len * (self.spec_delay() + 1),
    {
        proof {
            assert(len * self.delay + len == len * (self.delay + 1)) by (nonlinear_arith);
            assert(len * self.delay <= len * (self.delay + 1)) by (nonlinear_arith);
        }
        len * self.delay + len
    }

    /// Starts an update: returns the slot that receives the new state, and
    /// moves the read position on.
    pub fn advance(&mut self) -> (write: usize)
        requires
            old(self).spec_delay() < usize::MAX,
        ensures
            (write, final(self).position()) == delay_step(
                old(self).position(),
                old(self).spec_delay(),
            ),
            final(self).spec_delay() == old(self).spec_delay(),
            write <= old(self).spec_delay(),
    {
        if self.now > self.delay {
            self.now = 0;
        }
        let write = self.now;
        let next = write + 1;
        if self.delay != 0 {
            self.now = next % self.delay;
        } else {
            self.now = 0;
        }
        write
    }

    /// Stores a copy of `state` in the ring: grows the ring with `zero` to
    /// hold `delay + 1` states when it is shorter, writes the slot this
    /// update writes, and moves the read position on.
    pub fn store<T: Copy>(&mut self, ring: &mut Vec<T>, state: &[T], zero: T)
        requires
            old(self).spec_delay() < usize::MAX,
            state@.len() * (old(self).spec_delay() + 1) <= usize::MAX,
        ensures
            final(self).position() == delay_step(old(self).position(), old(self).spec_delay()).1,
            final(self).spec_delay() == old(self).spec_delay(),
            final(ring)@ == stored_ring(
                old(ring)@,
                delay_step(old(self).position(), old(self).spec_delay()).0 as int,
                state@,
                old(self).spec_delay() as int,
                zero,
            ),
    {
        let len = state.len();
        let need = self.required_len(len);
        if ring.len() < need {
            let ghost r0 = ring@;
            let mut k: usize = ring.len();
            while k < need
                invariant
                    r0.len() <= k <= need,
                    ring@.len() == k,
                    ring@ == r0 + Seq::new((k - r0.len()) as nat, |i: int| zero),
                decreases need - k,
            {
                ring.push(zero);
                k = k + 1;
                assert(ring@ =~= r0 + Seq::new((k - r0.len()) as nat, |i: int| zero));
            }
        }
        let ghost grown = ring@;
        let w = self.advance();
        proof {
            assert(w * len + len == (w + 1) * len) by (nonlinear_arith);
            assert((w + 1) * len <= (self.delay + 1) * len) by (nonlinear_arith)
                requires
                    w <= self.delay,
            ;
            assert((self.delay + 1) * len == len * (self.delay + 1)) by (nonlinear_arith);
        }
        let base = w * len;
        let n = ring.len();
        let mut i: usize = 0;
        while i < len
            invariant
                n == grown.len(),
                len == state@.len(),
                base == w * len,
                base + len <= grown.len(),
                ring@.len() == grown.len(),
                i <= len,
                forall|j: int|
                    0 <= j < grown.len() ==> #[trigger] ring@[j] == if base <= j < base + i {
                        state@[j - base]
                    } else {
                        grown[j]
                    },
            decreases len - i,
        {
            ring.set(base + i, state[i]);
            i = i + 1;
        }
        proof {
            assert(w * len + len == (w + 1) * len) by (nonlinear_arith);
            assert(ring@ =~= stored_ring(old(ring)@, w as int, state@, self.delay as int, zero));
        }
    }

    /// The state the pump currently reads: slot `now` of a ring of states
    /// of `len` samples.
    pub fn current<T: Copy>(&self, ring: &Vec<T>, len: usize) -> (r: Vec<T>)
        requires
            (self.position() + 1) * len <= ring@.len(),
        ensures
            r@ == ring@.subrange(self.position() * len, (self.position() + 1) * len),
    {
        let n = ring.len();
        proof {
            assert(self.position() * len <= (self.position() + 1) * len) by (nonlinear_arith);
        }
        let (start, end) = self.read_range(len);
        let mut r: Vec<T> = Vec::new();
        let mut i: usize = start;
        while i < end
            invariant
                start == self.position() * len,
                end == (self.position() + 1) * len,
                end <= ring@.len(),
                start <= i <= end,
                r@ == ring@.subrange(start as int, i as int),
            decreases end - i,
        {
            r.push(ring[i]);
            i = i + 1;
            assert(r@ =~= ring@.subrange(start as int, i as int));
        }
        r
    }

    /// The range of elements of slot `now` in a ring of states of `len`
    /// samples.
    pub fn read_range(&self, len: usize) -> (r: (usize, usize))
        requires
            (self.position() + 1) * len <= usize::MAX,
        ensures
            r == ((self.position() * len) as usize, ((self.position() + 1) * len) as usize),
    {
        proof {
            assert(self.now * len + len == (self.now + 1) * len) by (nonlinear_arith);
            assert(self.now * len <= (self.now + 1) * len) by (nonlinear_arith);
        }
        (self.now * len, self.now * len + len)
    }
}

/// The band of frequencies the loop lets through: `window` consecutive
/// frequencies from `window / 2 + 1 - window` to `window / 2`; `None` (no
/// filtering) when the window is zero.
pub fn loop_window_bounds(window: usize) -> (r: Option<(i32, i32)>)
    requires
        window <= i32::MAX,
    ensures
        window == 0 ==> r is None,
        window != 0 ==> r == Some(
            ((window / 2 + 1 - window) as i32, (window / 2) as i32),
        ),
        r matches Some((lo, hi)) ==> hi - lo + 1 == window,
{
    if window == 0 {
        return None;
    }
    let w = window as i32;
    let max_f = w / 2;
    let min_f = max_f + 1 - w;
    Some((min_f, max_f))
}

/// The slot written by the `n`-th of a run of updates with a fixed delay
/// `d >= 1`, started at position `now < d`.
pub open spec fn nth_write(now: int, d: int, n: int) -> int {
    (now + n) % d
}

/// With a fixed delay `d >= 1` and the ring in range, updates write the
/// slots in turn, and after each update the pump reads the slot that was
/// written `d - 1` updates earlier (with `d <= 1`, the one just written).
pub proof fn delay_line_lags_by_delay_minus_one(now: usize, d: usize, n: nat)
    requires
        d >= 1,
        now < d,
    ensures
        delay_step(((nth_write(now as int, d as int, n as int)) as usize), d).0 == nth_write(
            now as int,
            d as int,
            n as int,
        ),
        delay_step(((nth_write(now as int, d as int, n as int)) as usize), d).1 == nth_write(
            now as int,
            d as int,
            n + 1int,
        ),
        n + 1 >= d ==> delay_step(((nth_write(now as int, d as int, n as int)) as usize), d).1
            == nth_write(now as int, d as int, n + 1 - d),
{
    let w = nth_write(now as int, d as int, n as int);
    assert(0 <= w < d) by {
        vstd::arithmetic::div_mod::lemma_mod_bound(now + n, d as int);
    }
    vstd::arithmetic::div_mod::lemma_add_mod_noop(now + n, 1, d as int);
    vstd::arithmetic::div_mod::lemma_mod_self_0(d as int);
    if d > 1 {
        vstd::arithmetic::div_mod::lemma_small_mod(1, d as nat);
    }
    if n + 1 >= d {
        vstd::arithmetic::div_mod::lemma_mod_sub_multiples_vanish(now + n + 1, d as int);
    }
}

/// The ring after storing `states` one by one, from an empty ring whose
/// position starts at `now`, with the fixed delay `d`.
pub open spec fn ring_after<T>(states: Seq<Seq<T>>, now: int, d: int, zero: T) -> Seq<T>
    decreases states.len(),
{
    if states.len() == 0 {
        Seq::empty()
    } else {
        stored_ring(
            ring_after(states.drop_last(), now, d, zero),
            (now + states.len() - 1) % d,
            states.last(),
            d,
            zero,
        )
    }
}

/// Element `i` of slot `q` of a ring of states of `len` samples.
pub open spec fn ring_at<T>(ring: Seq<T>, len: int, q: int, i: int) -> T {
    ring[q * len + i]
}

/// The update (counted from zero) that last wrote slot `q` among the first
/// `k` updates started at position `now`; negative when none did.
pub open spec fn last_write(now: int, d: int, k: int, q: int) -> int {
    k - 1 - ((now + k - 1 - q) % d)
}

/// What slot `q` holds after `k` updates: the state of the update that
/// last wrote it, or zeros.
pub open spec fn slot_content<T>(states: Seq<Seq<T>>, now: int, d: int, k: int, q: int, i: int, zero: T) -> T {
    if q < d && last_write(now, d, k, q) >= 0 {
        states[last_write(now, d, k, q)][i]
    } else {
        zero
    }
}

proof fn lemma_mod_step(x: int, d: int)
    requires
        d > 0,
    ensures
        0 <= x % d < d,
        x % d != 0 ==> x % d == (x - 1) % d + 1,
        x % d == 0 ==> (x - 1) % d == d - 1,
{
    vstd::arithmetic::div_mod::lemma_fundamental_div_mod(x, d);
    vstd::arithmetic::div_mod::lemma_fundamental_div_mod(x - 1, d);
    vstd::arithmetic::div_mod::lemma_mod_bound(x, d);
    vstd::arithmetic::div_mod::lemma_mod_bound(x - 1, d);
    let q1 = x / d;
    let q2 = (x - 1) / d;
    let r1 = x % d;
    let r2 = (x - 1) % d;
    assert(d * (q1 - q2) == r2 + 1 - r1) by (nonlinear_arith)
        requires
            x == d * q1 + r1,
            x - 1 == d * q2 + r2,
    ;
    assert(q1 - q2 == 0 || q1 - q2 == 1) by (nonlinear_arith)
        requires
            d > 0,
            d * (q1 - q2) == r2 + 1 - r1,
            0 <= r1 < d,
            0 <= r2 < d,
    ;
    if q1 - q2 == 1 {
        assert(d * (q1 - q2) == d) by (nonlinear_arith)
            requires
                q1 - q2 == 1,
        ;
    } else {
        assert(d * (q1 - q2) == 0) by (nonlinear_arith)
            requires
                q1 - q2 == 0,
        ;
    }
}

proof fn lemma_mod_self_diff(x: int, d: int)
    requires
        d > 0,
    ensures
        (x - x % d) % d == 0,
{
    vstd::arithmetic::div_mod::lemma_fundamental_div_mod(x, d);
    vstd::arithmetic::div_mod::lemma_mod_multiples_basic(x / d, d);
    assert(x - x % d == (x / d) * d) by (nonlinear_arith)
        requires
            x == d * (x / d) + x % d,
    ;
}

proof fn lemma_block_index(q: int, w: int, len: int, i: int)
    requires
        0 <= q,
        0 <= w,
        0 <= i < len,
    ensures
        (w * len <= q * len + i < (w + 1) * len) <==> q == w,
        0 <= q * len + i,
{
    if q < w {
        assert(q * len + i < w * len) by (nonlinear_arith)
            requires
                q < w,
                0 <= i < len,
        ;
    } else if q > w {
        assert(q * len + i >= (w + 1) * len) by (nonlinear_arith)
            requires
                q > w,
                0 <= i,
                0 < len,
        ;
    } else {
        assert((w + 1) * len == w * len + len) by (nonlinear_arith);
    }
    assert(0 <= q * len) by (nonlinear_arith)
        requires
            0 <= q,
            0 < len,
    ;
}

proof fn lemma_ring_after<T>(states: Seq<Seq<T>>, now: int, d: int, len: int, zero: T)
    requires
        d >= 1,
        0 <= now < d,
        len > 0,
        forall|j: int| 0 <= j < states.len() ==> (#[trigger] states[j]).len() == len,
    ensures
        states.len() > 0 ==> ring_after(states, now, d, zero).len() == len * (d + 1),
        states.len() > 0 ==> forall|q: int, i: int|
            0 <= q <= d && 0 <= i < len ==> #[trigger] ring_at(
                ring_after(states, now, d, zero),
                len,
                q,
                i,
            ) == slot_content(states, now, d, states.len() as int, q, i, zero),
    decreases states.len(),
{
    if states.len() > 0 {
        let k = states.len() - 1;
        let prev = states.drop_last();
        lemma_ring_after(prev, now, d, len, zero);
        let ring = ring_after(prev, now, d, zero);
        let s = states.last();
        let w = (now + k) % d;
        lemma_mod_step(now + k, d);
        assert(s.len() == len);
        let need = len * (d + 1);
        assert(len * (d + 1) == (d + 1) * len) by (nonlinear_arith);
        let grown = if ring.len() < need {
            ring + Seq::new((need - ring.len()) as nat, |i: int| zero)
        } else {
            ring
        };
        assert(k == 0 ==> ring.len() == 0);
        assert(grown.len() == need);
        let r2 = ring_after(states, now, d, zero);
        assert(r2 == stored_ring(ring, w, s, d, zero));
        assert forall|q: int, i: int| 0 <= q <= d && 0 <= i < len implies #[trigger] ring_at(
            r2,
            len,
            q,
            i,
        ) == slot_content(states, now, d, states.len() as int, q, i, zero) by {
            lemma_block_index(q, w, len, i);
            assert(q * len + i < (d + 1) * len) by (nonlinear_arith)
                requires
                    q <= d,
                    0 <= i < len,
            ;
            let idx = q * len + i;
            if q == w {
                assert(r2[idx] == s[idx - w * len]);
                assert(idx - w * len == i);
                lemma_mod_self_diff(now + k, d);
                assert(last_write(now, d, k + 1, q) == k);
            } else {
                assert(r2[idx] == grown[idx]);
                if q < d {
                    lemma_mod_step(now + k - q, d);
                    vstd::arithmetic::div_mod::lemma_mod_bound(now + k - q, d);
                    if (now + k - q) % d == 0 {
                        lemma_mod_self_diff(now + k, d);
                        assert((now + k - w) % d == 0);
                        // two values in [0, d) that differ by a multiple of d are equal
                        vstd::arithmetic::div_mod::lemma_fundamental_div_mod(now + k - q, d);
                        vstd::arithmetic::div_mod::lemma_fundamental_div_mod(now + k - w, d);
                        let a = (now + k - q) / d;
                        let b = (now + k - w) / d;
                        assert(w - q == d * (a - b)) by (nonlinear_arith)
                            requires
                                now + k - q == d * a,
                                now + k - w == d * b,
                        ;
                        assert(a - b == 0) by (nonlinear_arith)
                            requires
                                w - q == d * (a - b),
                                0 <= w < d,
                                0 <= q < d,
                                d > 0,
                        ;
                    }
                    assert(last_write(now, d, k + 1, q) == last_write(now, d, k, q));
                }
                if k == 0 {
                    assert(grown[idx] == zero);
                    if q < d {
                        assert(last_write(now, d, 1, q) < 0);
                    }
                } else {
                    assert(grown[idx] == ring[idx]);
                    assert(ring_at(ring, len, q, i) == slot_content(prev, now, d, k, q, i, zero));
                    if q < d && last_write(now, d, k, q) >= 0 {
                        assert(prev[last_write(now, d, k, q)] == states[last_write(now, d, k, q)]);
                    }
                }
            }
        }
    }
}

/// With a fixed delay `d >= 1`, after storing `k >= 1` states of `len`
/// samples one by one from an empty ring whose position starts below `d`,
/// the ring holds `d + 1` states and the slot the pump then reads holds the
/// state stored `d` updates earlier, or zeros while fewer than `d` updates
/// were made; so a delay of one reads the state just stored.
pub proof fn delay_ring_returns_state_from_delay_updates_ago<T>(
    states: Seq<Seq<T>>,
    now: int,
    d: int,
    len: int,
    zero: T,
)
    requires
        d >= 1,
        0 <= now < d,
        len > 0,
        states.len() >= 1,
        forall|j: int| 0 <= j < states.len() ==> (#[trigger] states[j]).len() == len,
    ensures
        ring_after(states, now, d, zero).len() == len * (d + 1),
        ({
            let k = states.len() as int;
            let q = (now + k) % d;
            forall|i: int|
                0 <= i < len ==> #[trigger] ring_at(ring_after(states, now, d, zero), len, q, i) == if k
                    >= d {
                    states[k - d][i]
                } else {
                    zero
                }
        }),
{
    lemma_ring_after(states, now, d, len, zero);
    let k = states.len() as int;
    let q = (now + k) % d;
    lemma_mod_step(now + k, d);
    lemma_mod_self_diff(now + k, d);
    lemma_mod_step(now + k - q, d);
    assert(last_write(now, d, k, q) == k - d);
    assert forall|i: int| 0 <= i < len implies #[trigger] ring_at(
        ring_after(states, now, d, zero),
        len,
        q,
        i,
    ) == if k >= d {
        states[k - d][i]
    } else {
        zero
    } by {
        assert(ring_at(ring_after(states, now, d, zero), len, q, i) == slot_content(
            states,
            now,
            d,
            k,
            q,
            i,
            zero,
        ));
    }
}

} // verus!
