use vstd::prelude::*;

verus! {

/// One mode visited when walking the spectrum of two coupled rings: its
/// frequency number, whether it is a coupled pair, and where its amplitudes
/// are read.  For the coupled walk `first` and `second` are positions in
/// the first and the second ring's half of the spectrum; for the decoupled
/// walk `first` is the position in the joint half and `second` is
/// `first + 1`.
#[derive(Clone, Copy, PartialEq, Eq, Debug)]
pub struct ModeSlot {
    pub freq: i32,
    pub pair: bool,
    pub first: usize,
    pub second: usize,
}

/// The coupled walk over non-negative frequencies: from frequency `freq`
/// with the two ring positions `a` and `b`, a singular frequency is a
/// single mode (one step, first ring only), any other a pair (two steps,
/// both rings); the walk ends past `len`.
pub open spec fn coupled_walk(len: int, singular: Seq<bool>, freq: int, a: int, b: int) -> Seq<
    ModeSlot,
>
    decreases len + 2 - freq,
{
    if freq > len || freq < 0 {
        Seq::empty()
    } else if singular[freq] {
        seq![ModeSlot { freq: freq as i32, pair: false, first: a as usize, second: b as usize }]
            + coupled_walk(len, singular, freq + 1, a + 1, b)
    } else {
        seq![ModeSlot { freq: freq as i32, pair: true, first: a as usize, second: b as usize }]
            + coupled_walk(len, singular, freq + 2, a + 1, b + 1)
    }
}

/// The decoupled walk over non-negative frequencies: one position `p` in
/// the joint half, advancing by one for a single mode and by two for a pair.
pub open spec fn decoupled_walk(len: int, singular: Seq<bool>, freq: int, p: int) -> Seq<ModeSlot>
    decreases len + 2 - freq,
{
    if freq > len || freq < 0 {
        Seq::empty()
    } else if singular[freq] {
        seq![ModeSlot { freq: freq as i32, pair: false, first: p as usize, second: (p + 1) as usize }]
            + decoupled_walk(len, singular, freq + 1, p + 1)
    } else {
        seq![ModeSlot { freq: freq as i32, pair: true, first: p as usize, second: (p + 1) as usize }]
            + decoupled_walk(len, singular, freq + 2, p + 2)
    }
}

/// Where the decoupled walk reads: each mode reads its amplitudes from two
/// consecutive positions `first` and `first + 1` of the joint half; the
/// walk starts at position `p`, and each mode starts where the previous
/// one's positions end (one further after a single mode, two after a
/// pair).
pub proof fn decoupled_walk_reads_consecutive_positions(len: int, singular: Seq<bool>, freq: int, p: int)
    requires
        0 <= freq,
        0 <= p,
        p + (len - freq) + 2 <= usize::MAX,
    ensures
        ({
            let w = decoupled_walk(len, singular, freq, p);
            &&& forall|i: int| 0 <= i < w.len() ==> (#[trigger] w[i]).second == w[i].first + 1
            &&& w.len() > 0 ==> w[0].first == p
            &&& forall|i: int|
                0 <= i < w.len() - 1 ==> (#[trigger] w[i + 1]).first == w[i].first + if w[i].pair {
                    2int
                } else {
                    1int
                }
        }),
    decreases len + 2 - freq,
{
    if freq > len || freq < 0 {
    } else {
        let w = decoupled_walk(len, singular, freq, p);
        if singular[freq] {
            decoupled_walk_reads_consecutive_positions(len, singular, freq + 1, p + 1);
            let w1 = decoupled_walk(len, singular, freq + 1, p + 1);
            assert forall|i: int| 0 <= i < w.len() implies (#[trigger] w[i]).second == w[i].first + 1 by {
                if i > 0 {
                    assert(w[i] == w1[i - 1]);
                }
            }
            assert forall|i: int| 0 <= i < w.len() - 1 implies (#[trigger] w[i + 1]).first == w[i].first
                + if w[i].pair {
                2int
            } else {
                1int
            } by {
                assert(w[i + 1] == w1[i]);
                if i > 0 {
                    assert(w[i] == w1[i - 1]);
                    assert(w1[(i - 1) + 1].first == w1[i - 1].first + if w1[i - 1].pair {
                        2int
                    } else {
                        1int
                    });
                } else {
                    assert(w1.len() > 0);
                    assert(w1[0].first == p + 1);
                    assert(w[0].first == p);
                }
            }
        } else {
            decoupled_walk_reads_consecutive_positions(len, singular, freq + 2, p + 2);
            let w1 = decoupled_walk(len, singular, freq + 2, p + 2);
            assert forall|i: int| 0 <= i < w.len() implies (#[trigger] w[i]).second == w[i].first + 1 by {
                if i > 0 {
                    assert(w[i] == w1[i - 1]);
                }
            }
            assert forall|i: int| 0 <= i < w.len() - 1 implies (#[trigger] w[i + 1]).first == w[i].first
                + if w[i].pair {
                2int
            } else {
                1int
            } by {
                assert(w[i + 1] == w1[i]);
                if i > 0 {
                    assert(w[i] == w1[i - 1]);
                    assert(w1[(i - 1) + 1].first == w1[i - 1].first + if w1[i - 1].pair {
                        2int
                    } else {
                        1int
                    });
                } else {
                    assert(w1.len() > 0);
                    assert(w1[0].first == p + 2);
                    assert(w[0].first == p);
                }
            }
        }
    }
}

/// What the coupled walk visits: every frequency from `freq` up to `len`
/// that is not the second half of a pair, in order; a singular frequency is
/// a single mode that takes one step and reads only the first ring, any
/// other is a pair that takes two steps and reads both rings; each mode
/// reads the first ring one position further on, the second ring one
/// further after a pair.
pub proof fn coupled_walk_visits_modes_in_order(
    len: int,
    singular: Seq<bool>,
    freq: int,
    a: int,
    b: int,
)
    requires
        0 <= freq,
        0 <= a,
        0 <= b,
        a + (len - freq) + 2 <= usize::MAX,
        b + (len - freq) + 2 <= usize::MAX,
        len + 2 <= i32::MAX,
    ensures
        ({
            let w = coupled_walk(len, singular, freq, a, b);
            &&& forall|i: int|
                0 <= i < w.len() ==> freq <= (#[trigger] w[i]).freq <= len && w[i].pair
                    == !singular[w[i].freq as int]
            &&& w.len() > 0 ==> w[0].freq == freq && w[0].first == a && w[0].second == b
            &&& forall|i: int|
                0 <= i < w.len() - 1 ==> {
                    &&& (#[trigger] w[i + 1]).freq == w[i].freq + if w[i].pair {
                        2int
                    } else {
                        1int
                    }
                    &&& w[i + 1].first == w[i].first + 1
                    &&& w[i + 1].second == w[i].second + if w[i].pair {
                        1int
                    } else {
                        0int
                    }
                }
            &&& w.len() > 0 ==> w[w.len() - 1].freq + (if w[w.len() - 1].pair {
                2int
            } else {
                1int
            }) > len
        }),
    decreases len + 2 - freq,
{
    if freq > len || freq < 0 {
    } else {
        let w = coupled_walk(len, singular, freq, a, b);
        let step: int = if singular[freq] {
            1
        } else {
            2
        };
        let nb: int = if singular[freq] {
            b
        } else {
            b + 1
        };
        coupled_walk_visits_modes_in_order(len, singular, freq + step, a + 1, nb);
        let w1 = coupled_walk(len, singular, freq + step, a + 1, nb);
        assert(w =~= seq![ModeSlot { freq: freq as i32, pair: !singular[freq], first: a as usize, second: b as usize }] + w1);
        assert forall|i: int| 0 <= i < w.len() implies freq <= (#[trigger] w[i]).freq <= len
            && w[i].pair == !singular[w[i].freq as int] by {
            if i > 0 {
                assert(w[i] == w1[i - 1]);
            }
        }
        assert forall|i: int| 0 <= i < w.len() - 1 implies {
            &&& (#[trigger] w[i + 1]).freq == w[i].freq + if w[i].pair {
                2int
            } else {
                1int
            }
            &&& w[i + 1].first == w[i].first + 1
            &&& w[i + 1].second == w[i].second + if w[i].pair {
                1int
            } else {
                0int
            }
        } by {
            assert(w[i + 1] == w1[i]);
            if i > 0 {
                assert(w[i] == w1[i - 1]);
                assert(w1[(i - 1) + 1] == w1[i]);
            } else {
                assert(w1.len() > 0);
            }
        }
        if w1.len() > 0 {
            assert(w[w.len() - 1] == w1[w1.len() - 1]);
        }
    }
}

/// The frequency and kind of each mode of a walk.
pub open spec fn shape(s: Seq<ModeSlot>) -> Seq<(i32, bool)> {
    s.map_values(|m: ModeSlot| (m.freq, m.pair))
}

/// The coupled walk over the non-negative frequencies of a state of `len`
/// samples; `singular[f]` tells whether frequency `f` is a single mode.
pub fn coupling_layout_positive(len: usize, singular: &Vec<bool>) -> (r: Vec<ModeSlot>)
    requires
        singular@.len() > len,
        len + 2 <= i32::MAX,
    ensures
        r@ == coupled_walk(len as int, singular@, 0, 0, 0),
{
    let mut r: Vec<ModeSlot> = Vec::new();
    let mut freq: usize = 0;
    let mut a: usize = 0;
    let mut b: usize = 0;
    while freq <= len
        invariant
            singular@.len() > len,
            len + 2 <= i32::MAX,
            a <= freq,
            b <= freq,
            freq <= len + 2,
            r@ + coupled_walk(len as int, singular@, freq as int, a as int, b as int)
                == coupled_walk(len as int, singular@, 0, 0, 0),
        decreases len + 2 - freq,
    {
        let ghost before = r@;
        if singular[freq] {
            r.push(ModeSlot { freq: freq as i32, pair: false, first: a, second: b });
            proof {
                assert(r@ + coupled_walk(len as int, singular@, freq + 1, a + 1, b as int) =~= before
                    + coupled_walk(len as int, singular@, freq as int, a as int, b as int));
            }
            freq = freq + 1;
            a = a + 1;
        } else {
            r.push(ModeSlot { freq: freq as i32, pair: true, first: a, second: b });
            proof {
                assert(r@ + coupled_walk(len as int, singular@, freq + 2, a + 1, b + 1) =~= before
                    + coupled_walk(len as int, singular@, freq as int, a as int, b as int));
            }
            freq = freq + 2;
            a = a + 1;
            b = b + 1;
        }
    }
    assert(r@ =~= r@ + coupled_walk(len as int, singular@, freq as int, a as int, b as int));
    r
}

/// The decoupled walk over the non-negative frequencies of a state of
/// `len` samples.
pub fn decoupling_layout_positive(len: usize, singular: &Vec<bool>) -> (r: Vec<ModeSlot>)
    requires
        singular@.len() > len,
        len + 3 <= i32::MAX,
    ensures
        r@ == decoupled_walk(len as int, singular@, 0, 0),
        forall|i: int| 0 <= i < r@.len() ==> (#[trigger] r@[i]).second == r@[i].first + 1,
{
    proof {
        decoupled_walk_reads_consecutive_positions(len as int, singular@, 0, 0);
    }
    let mut r: Vec<ModeSlot> = Vec::new();
    let mut freq: usize = 0;
    let mut p: usize = 0;
    while freq <= len
        invariant
            singular@.len() > len,
            len + 3 <= i32::MAX,
            p == freq,
            freq <= len + 2,
            r@ + decoupled_walk(len as int, singular@, freq as int, p as int) == decoupled_walk(
                len as int,
                singular@,
                0,
                0,
            ),
        decreases len + 2 - freq,
    {
        let ghost before = r@;
        if singular[freq] {
            r.push(ModeSlot { freq: freq as i32, pair: false, first: p, second: p + 1 });
            proof {
                assert(r@ + decoupled_walk(len as int, singular@, freq + 1, p + 1) =~= before
                    + decoupled_walk(len as int, singular@, freq as int, p as int));
            }
            freq = freq + 1;
            p = p + 1;
        } else {
            r.push(ModeSlot { freq: freq as i32, pair: true, first: p, second: p + 1 });
            proof {
                assert(r@ + decoupled_walk(len as int, singular@, freq + 2, p + 2) =~= before
                    + decoupled_walk(len as int, singular@, freq as int, p as int));
            }
            freq = freq + 2;
            p = p + 2;
        }
    }
    assert(r@ =~= r@ + decoupled_walk(len as int, singular@, freq as int, p as int));
    r
}

/// The coupled and the decoupled walks visit the same modes: the same
/// frequencies, each a single mode or a pair in both; and the decoupled
/// position of each mode is the sum of the two coupled positions.
pub proof fn coupled_and_decoupled_walks_agree(
    len: int,
    singular: Seq<bool>,
    freq: int,
    a: int,
    b: int,
)
    requires
        a + b == freq,
        a >= 0,
        b >= 0,
        len + 2 <= i32::MAX,
    ensures
        shape(coupled_walk(len, singular, freq, a, b)) == shape(
            decoupled_walk(len, singular, freq, freq),
        ),
        coupled_walk(len, singular, freq, a, b).len() == decoupled_walk(
            len,
            singular,
            freq,
            freq,
        ).len(),
        forall|i: int|
            0 <= i < coupled_walk(len, singular, freq, a, b).len() ==> (#[trigger] coupled_walk(
                len,
                singular,
                freq,
                a,
                b,
            )[i]).first + coupled_walk(len, singular, freq, a, b)[i].second == decoupled_walk(
                len,
                singular,
                freq,
                freq,
            )[i].first,
    decreases len + 2 - freq,
{
    if freq > len || freq < 0 {
    } else if singular[freq] {
        coupled_and_decoupled_walks_agree(len, singular, freq + 1, a + 1, b);
        let c = coupled_walk(len, singular, freq, a, b);
        let d = decoupled_walk(len, singular, freq, freq);
        let c1 = coupled_walk(len, singular, freq + 1, a + 1, b);
        let d1 = decoupled_walk(len, singular, freq + 1, freq + 1);
        assert(c.len() == d.len());
        assert forall|i: int| 0 <= i < c.len() implies (#[trigger] c[i]).first + c[i].second
            == d[i].first && c[i].freq == d[i].freq && c[i].pair == d[i].pair by {
            if i > 0 {
                assert(c[i] == c1[i - 1]);
                assert(d[i] == d1[i - 1]);
                assert(shape(c1)[i - 1] == (c1[i - 1].freq, c1[i - 1].pair));
                assert(shape(d1)[i - 1] == (d1[i - 1].freq, d1[i - 1].pair));
                assert(c1[i - 1].first + c1[i - 1].second == d1[i - 1].first);
            } else {
                assert(c[0].first == a);
                assert(c[0].second == b);
                assert(d[0].first == freq);
            }
        }
        assert(shape(c) =~= shape(d));
    } else {
        coupled_and_decoupled_walks_agree(len, singular, freq + 2, a + 1, b + 1);
        let c = coupled_walk(len, singular, freq, a, b);
        let d = decoupled_walk(len, singular, freq, freq);
        let c1 = coupled_walk(len, singular, freq + 2, a + 1, b + 1);
        let d1 = decoupled_walk(len, singular, freq + 2, freq + 2);
        assert(c.len() == d.len());
        assert forall|i: int| 0 <= i < c.len() implies (#[trigger] c[i]).first + c[i].second
            == d[i].first && c[i].freq == d[i].freq && c[i].pair == d[i].pair by {
            if i > 0 {
                assert(c[i] == c1[i - 1]);
                assert(d[i] == d1[i - 1]);
                assert(shape(c1)[i - 1] == (c1[i - 1].freq, c1[i - 1].pair));
                assert(shape(d1)[i - 1] == (d1[i - 1].freq, d1[i - 1].pair));
                assert(c1[i - 1].first + c1[i - 1].second == d1[i - 1].first);
            } else {
                assert(c[0].first == a);
                assert(c[0].second == b);
                assert(d[0].first == freq);
            }
        }
        assert(shape(c) =~= shape(d));
    }
}

/// A walk over negative frequencies: step `k` of a walk over `0, 1, ...`
/// stands for frequency `-1 - k`.
pub open spec fn mirrored(s: Seq<ModeSlot>) -> Seq<ModeSlot> {
    s.map_values(|m: ModeSlot| ModeSlot { freq: (-1 - m.freq) as i32, ..m })
}

/// The coupled walk over the negative frequencies of a state of `len`
/// samples, from `-1` downwards while `-freq <= len - 1`; `singular[k]`
/// tells whether frequency `-1 - k` is a single mode, and the positions
/// count from the end of each ring's half.
pub fn coupling_layout_negative(len: usize, singular: &Vec<bool>) -> (r: Vec<ModeSlot>)
    requires
        singular@.len() + 1 >= len,
        len + 2 <= i32::MAX,
    ensures
        r@ == mirrored(coupled_walk(len - 2, singular@, 0, 0, 0)),
{
    let mut r: Vec<ModeSlot> = Vec::new();
    let mut k: usize = 0;
    let mut a: usize = 0;
    let mut b: usize = 0;
    while k + 2 <= len
        invariant
            singular@.len() + 1 >= len,
            len + 2 <= i32::MAX,
            a <= k,
            b <= k,
            k <= len + 2,
            r@ + mirrored(coupled_walk(len - 2, singular@, k as int, a as int, b as int))
                == mirrored(coupled_walk(len - 2, singular@, 0, 0, 0)),
        decreases len + 2 - k,
    {
        let ghost before = r@;
        let ghost rest = coupled_walk(len - 2, singular@, k as int, a as int, b as int);
        let freq: i32 = -1 - (k as i32);
        if singular[k] {
            r.push(ModeSlot { freq, pair: false, first: a, second: b });
            proof {
                let next = coupled_walk(len - 2, singular@, k + 1, a + 1, b as int);
                assert(rest =~= seq![ModeSlot { freq: k as i32, pair: false, first: a, second: b }]
                    + next);
                assert(mirrored(rest) =~= seq![ModeSlot { freq, pair: false, first: a, second: b }]
                    + mirrored(next));
                assert(r@ + mirrored(next) =~= before + mirrored(rest));
            }
            k = k + 1;
            a = a + 1;
        } else {
            r.push(ModeSlot { freq, pair: true, first: a, second: b });
            proof {
                let next = coupled_walk(len - 2, singular@, k + 2, a + 1, b + 1);
                assert(rest =~= seq![ModeSlot { freq: k as i32, pair: true, first: a, second: b }]
                    + next);
                assert(mirrored(rest) =~= seq![ModeSlot { freq, pair: true, first: a, second: b }]
                    + mirrored(next));
                assert(r@ + mirrored(next) =~= before + mirrored(rest));
            }
            k = k + 2;
            a = a + 1;
            b = b + 1;
        }
    }
    assert(coupled_walk(len - 2, singular@, k as int, a as int, b as int) =~= Seq::empty());
    assert(r@ =~= r@ + mirrored(coupled_walk(len - 2, singular@, k as int, a as int, b as int)));
    r
}

/// The decoupled walk over the negative frequencies of a state of `len`
/// samples; positions count from the end of the joint half.
pub fn decoupling_layout_negative(len: usize, singular: &Vec<bool>) -> (r: Vec<ModeSlot>)
    requires
        singular@.len() + 1 >= len,
        len + 3 <= i32::MAX,
    ensures
        r@ == mirrored(decoupled_walk(len - 2, singular@, 0, 0)),
        forall|i: int| 0 <= i < r@.len() ==> (#[trigger] r@[i]).second == r@[i].first + 1,
{
    proof {
        decoupled_walk_reads_consecutive_positions(len - 2, singular@, 0, 0);
    }
    let mut r: Vec<ModeSlot> = Vec::new();
    let mut k: usize = 0;
    while k + 2 <= len
        invariant
            singular@.len() + 1 >= len,
            len + 3 <= i32::MAX,
            k <= len + 2,
            r@ + mirrored(decoupled_walk(len - 2, singular@, k as int, k as int)) == mirrored(
                decoupled_walk(len - 2, singular@, 0, 0),
            ),
        decreases len + 2 - k,
    {
        let ghost before = r@;
        let ghost rest = decoupled_walk(len - 2, singular@, k as int, k as int);
        let freq: i32 = -1 - (k as i32);
        if singular[k] {
            r.push(ModeSlot { freq, pair: false, first: k, second: k + 1 });
            proof {
                let next = decoupled_walk(len - 2, singular@, k + 1, k + 1);
                assert(rest =~= seq![
                    ModeSlot { freq: k as i32, pair: false, first: k, second: (k + 1) as usize },
                ] + next);
                assert(mirrored(rest) =~= seq![
                    ModeSlot { freq, pair: false, first: k, second: (k + 1) as usize },
                ] + mirrored(next));
                assert(r@ + mirrored(next) =~= before + mirrored(rest));
            }
            k = k + 1;
        } else {
            r.push(ModeSlot { freq, pair: true, first: k, second: k + 1 });
            proof {
                let next = decoupled_walk(len - 2, singular@, k + 2, k + 2);
                assert(rest =~= seq![
                    ModeSlot { freq: k as i32, pair: true, first: k, second: (k + 1) as usize },
                ] + next);
                assert(mirrored(rest) =~= seq![
                    ModeSlot { freq, pair: true, first: k, second: (k + 1) as usize },
                ] + mirrored(next));
                assert(r@ + mirrored(next) =~= before + mirrored(rest));
            }
            k = k + 2;
        }
    }
    assert(decoupled_walk(len - 2, singular@, k as int, k as int) =~= Seq::empty());
    assert(r@ =~= r@ + mirrored(decoupled_walk(len - 2, singular@, k as int, k as int)));
    r
}

/// Mirroring keeps the agreement of the two walks: on the negative
/// frequencies too they visit the same modes.
pub proof fn mirrored_walks_agree(len: int, singular: Seq<bool>)
    requires
        len + 2 <= i32::MAX,
    ensures
        shape(mirrored(coupled_walk(len, singular, 0, 0, 0))) == shape(
            mirrored(decoupled_walk(len, singular, 0, 0)),
        ),
{
    coupled_and_decoupled_walks_agree(len, singular, 0, 0, 0);
    let c = coupled_walk(len, singular, 0, 0, 0);
    let d = decoupled_walk(len, singular, 0, 0);
    assert forall|i: int| 0 <= i < c.len() implies #[trigger] shape(mirrored(c))[i] == shape(
        mirrored(d),
    )[i] by {
        assert(shape(c)[i] == shape(d)[i]);
    }
    assert(shape(mirrored(c)) =~= shape(mirrored(d)));
}

} // verus!
