use vstd::prelude::*;

verus! {

/// What one row of the RF input window holds.
#[derive(Clone, Copy, PartialEq, Eq, Debug)]
pub enum RowContent {
    /// A row of zeros (padding before the history starts).
    Zero,
    /// The processed spectrum of the history entry with this index.
    History(usize),
    /// A row whose content is left over from an earlier layout.
    Stale,
}

/// One step that the owner of the row buffer performs, in order.
#[derive(Clone, Copy, PartialEq, Eq, Debug)]
pub enum RowOp {
    /// Resize the buffer to this many elements; every row is stale afterwards.
    Resize(usize),
    /// Fill this row with zeros.
    Zero(usize),
    /// Fill `row` with the processed spectrum of history entry `source`;
    /// when processing fails the whole update is abandoned.
    Fill { row: usize, source: usize },
    /// Move every row `rows` places towards the front (`copy_within`); the
    /// last `rows` rows keep their old content.
    ShiftUp(usize),
    /// Abandon the update.
    Abort,
}

/// Bookkeeping of the cached RF input window: which history entries the
/// rows hold, and how long the buffer is.
#[derive(Clone, Copy, PartialEq, Eq, Debug)]
pub struct RfGpuInputCache {
    pub start: usize,
    pub history_len: usize,
    pub time_len: usize,
    pub data_len: usize,
}

/// The steps of an update, and the bookkeeping to store once every step
/// succeeded.
#[derive(Clone, Debug)]
pub struct RfCachePlan {
    pub ops: Vec<RowOp>,
    pub committed: RfGpuInputCache,
}

/// Number of history rows that the window `[start, start + time_len)` can take.
pub open spec fn valid_rows(start: int, history_len: int, time_len: int) -> int {
    if history_len > start {
        if history_len - start < time_len {
            history_len - start
        } else {
            time_len
        }
    } else {
        0
    }
}

/// What row `t` of the window should hold: zeros for the leading padding,
/// then the history entries from `start` on.
pub open spec fn window_row(start: int, history_len: int, time_len: int, t: int) -> RowContent {
    let pad = time_len - valid_rows(start, history_len, time_len);
    if t < pad {
        RowContent::Zero
    } else if start + (t - pad) >= history_len {
        RowContent::Zero
    } else {
        RowContent::History((start + (t - pad)) as usize)
    }
}

/// The whole window, row by row.
pub open spec fn window_rows(start: int, history_len: int, time_len: int) -> Seq<RowContent> {
    Seq::new(time_len as nat, |t: int| window_row(start, history_len, time_len, t))
}

/// The rows after one step.
pub open spec fn apply_op(rows: Seq<RowContent>, op: RowOp, time_len: nat) -> Seq<RowContent> {
    match op {
        RowOp::Resize(_) => Seq::new(time_len, |i: int| RowContent::Stale),
        RowOp::Zero(t) => if t < rows.len() {
            rows.update(t as int, RowContent::Zero)
        } else {
            rows
        },
        RowOp::Fill { row, source } => if row < rows.len() {
            rows.update(row as int, RowContent::History(source))
        } else {
            rows
        },
        RowOp::ShiftUp(d) => Seq::new(
            rows.len(),
            |i: int|
                if i + d < rows.len() {
                    rows[i + d]
                } else {
                    rows[i]
                },
        ),
        RowOp::Abort => rows,
    }
}

/// The rows after all steps, in order.
pub open spec fn apply_ops(rows: Seq<RowContent>, ops: Seq<RowOp>, time_len: nat) -> Seq<
    RowContent,
>
    decreases ops.len(),
{
    if ops.len() == 0 {
        rows
    } else {
        apply_op(apply_ops(rows, ops.drop_last(), time_len), ops.last(), time_len)
    }
}

/// Whether the plan abandons the update on its own.
pub open spec fn aborts(ops: Seq<RowOp>) -> bool {
    exists|i: int| 0 <= i < ops.len() && ops[i] == RowOp::Abort
}

/// Whether every step only touches rows below `time_len`.
pub open spec fn ops_in_bounds(ops: Seq<RowOp>, time_len: nat) -> bool {
    forall|i: int|
        0 <= i < ops.len() ==> match #[trigger] ops[i] {
            RowOp::Zero(t) => t < time_len,
            RowOp::Fill { row, .. } => row < time_len,
            _ => true,
        }
}

/// Whether a row is refilled from history by the plan, with the index it
/// reads.
pub open spec fn reads_history(ops: Seq<RowOp>, history_len: nat) -> bool {
    forall|i: int|
        0 <= i < ops.len() ==> match #[trigger] ops[i] {
            RowOp::Fill { source, .. } => source < history_len,
            _ => true,
        }
}

pub proof fn lemma_apply_ops_push(rows: Seq<RowContent>, ops: Seq<RowOp>, op: RowOp, tl: nat)
    ensures
        apply_ops(rows, ops.push(op), tl) == apply_op(apply_ops(rows, ops, tl), op, tl),
{
    assert(ops.push(op).drop_last() =~= ops);
}

pub proof fn lemma_apply_ops_len(rows: Seq<RowContent>, ops: Seq<RowOp>, tl: nat)
    requires
        rows.len() == tl,
    ensures
        apply_ops(rows, ops, tl).len() == tl,
    decreases ops.len(),
{
    if ops.len() > 0 {
        lemma_apply_ops_len(rows, ops.drop_last(), tl);
        let prev = apply_ops(rows, ops.drop_last(), tl);
        assert(apply_ops(rows, ops, tl) == apply_op(prev, ops.last(), tl));
        match ops.last() {
            RowOp::Resize(_) => {},
            RowOp::Zero(t) => {},
            RowOp::Fill { row, source } => {},
            RowOp::ShiftUp(d) => {},
            RowOp::Abort => {},
        }
    }
}

pub proof fn lemma_apply_ops_split(rows: Seq<RowContent>, ops: Seq<RowOp>, k: int, tl: nat)
    requires
        0 <= k <= ops.len(),
    ensures
        apply_ops(rows, ops, tl) == apply_ops(
            apply_ops(rows, ops.subrange(0, k), tl),
            ops.subrange(k, ops.len() as int),
            tl,
        ),
    decreases ops.len(),
{
    if ops.len() == k {
        assert(ops.subrange(0, k) =~= ops);
        assert(ops.subrange(k, ops.len() as int) =~= Seq::<RowOp>::empty());
    } else {
        lemma_apply_ops_split(rows, ops.drop_last(), k, tl);
        assert(ops.drop_last().subrange(0, k) =~= ops.subrange(0, k));
        assert(ops.subrange(k, ops.len() as int).drop_last() =~= ops.drop_last().subrange(
            k,
            ops.drop_last().len() as int,
        ));
        assert(ops.subrange(k, ops.len() as int).last() == ops.last());
    }
}

pub proof fn lemma_apply_ops_prefix_same(
    rows: Seq<RowContent>,
    rows2: Seq<RowContent>,
    ops: Seq<RowOp>,
    k: int,
    tl: nat,
)
    requires
        0 <= k <= ops.len(),
        apply_ops(rows, ops.subrange(0, k), tl) == apply_ops(rows2, ops.subrange(0, k), tl),
    ensures
        apply_ops(rows, ops, tl) == apply_ops(rows2, ops, tl),
{
    lemma_apply_ops_split(rows, ops, k, tl);
    lemma_apply_ops_split(rows2, ops, k, tl);
}

/// The step that rebuilds row `t` of the window `[start, start + time_len)`:
/// zeros for padding and past the end of the history, else a read.
pub open spec fn fill_op(start: int, history_len: int, time_len: int, t: int) -> RowOp {
    let pad = time_len - valid_rows(start, history_len, time_len);
    if t < pad {
        RowOp::Zero(t as usize)
    } else if start + (t - pad) >= history_len {
        RowOp::Zero(t as usize)
    } else {
        RowOp::Fill { row: t as usize, source: (start + (t - pad)) as usize }
    }
}

/// The steps that rebuild every row of the window, in row order.
pub open spec fn fill_ops(start: int, history_len: int, time_len: int) -> Seq<RowOp> {
    Seq::new(time_len as nat, |t: int| fill_op(start, history_len, time_len, t))
}

/// The steps of an update in place from the cache's bookkeeping: a window
/// that slides forward by a whole window or more is refilled; one that
/// slides less shifts its rows up, reads the rows that entered as far as
/// the history reaches, and gives up when it runs out; a window that keeps
/// its place reads the newest history entries, as many as were added (at
/// most a window), into its last rows.
pub open spec fn incremental_ops(
    cache: RfGpuInputCache,
    start: int,
    history_len: int,
    time_len: int,
) -> Seq<RowOp> {
    let prev_end = cache.start + time_len;
    if start > cache.start {
        let dropped = start - cache.start;
        if dropped >= time_len {
            fill_ops(start, history_len, time_len)
        } else {
            let readable = if prev_end >= history_len {
                0
            } else if history_len - prev_end < dropped {
                history_len - prev_end
            } else {
                dropped
            };
            seq![RowOp::ShiftUp(dropped as usize)] + Seq::new(
                readable as nat,
                |i: int| RowOp::Fill { row: (time_len - dropped + i) as usize, source: (prev_end + i) as usize },
            ) + if readable < dropped {
                seq![RowOp::Abort]
            } else {
                Seq::empty()
            }
        }
    } else if history_len > cache.history_len {
        let growth = history_len - cache.history_len;
        let tail_rows = if growth < time_len {
            growth
        } else {
            time_len
        };
        Seq::new(
            tail_rows as nat,
            |i: int|
                RowOp::Fill {
                    row: (time_len - tail_rows + i) as usize,
                    source: (history_len - tail_rows + i) as usize,
                },
        )
    } else {
        Seq::empty()
    }
}

/// Appends the steps that rebuild the whole window `[start, start + time_len)`.
fn push_fill_window(
    ops: &mut Vec<RowOp>,
    start: usize,
    history_len: usize,
    time_len: usize,
    Ghost(rows): Ghost<Seq<RowContent>>,
)
    requires
        rows.len() == time_len,
        apply_ops(rows, old(ops)@, time_len as nat).len() == time_len,
        start + time_len <= usize::MAX,
    ensures
        apply_ops(rows, final(ops)@, time_len as nat) == window_rows(
            start as int,
            history_len as int,
            time_len as int,
        ),
        final(ops)@ == old(ops)@ + fill_ops(start as int, history_len as int, time_len as int),
        final(ops)@.len() == old(ops)@.len() + time_len,
        final(ops)@.subrange(0, old(ops)@.len() as int) == old(ops)@,
        forall|i: int|
            old(ops)@.len() <= i < final(ops)@.len() ==> match #[trigger] final(ops)@[i] {
                RowOp::Zero(t) => t < time_len,
                RowOp::Fill { row, source } => row < time_len && source < history_len,
                _ => false,
            },
{
    let ghost ops0 = ops@;
    let valid: usize = if history_len > start {
        if history_len - start < time_len {
            history_len - start
        } else {
            time_len
        }
    } else {
        0
    };
    let pad = time_len - valid;
    let mut t: usize = 0;
    while t < time_len
        invariant
            rows.len() == time_len,
            start + time_len <= usize::MAX,
            valid == valid_rows(start as int, history_len as int, time_len as int),
            pad == time_len - valid,
            t <= time_len,
            ops@.len() == ops0.len() + t,
            ops@ == ops0 + Seq::new(t as nat, |j: int| fill_op(start as int, history_len as int, time_len as int, j)),
            ops@.subrange(0, ops0.len() as int) == ops0,
            apply_ops(rows, ops@, time_len as nat).len() == time_len,
            forall|j: int|
                0 <= j < t ==> apply_ops(rows, ops@, time_len as nat)[j] == window_row(
                    start as int,
                    history_len as int,
                    time_len as int,
                    j,
                ),
            forall|i: int|
                ops0.len() <= i < ops@.len() ==> match #[trigger] ops@[i] {
                    RowOp::Zero(r) => r < time_len,
                    RowOp::Fill { row, source } => row < time_len && source < history_len,
                    _ => false,
                },
        decreases time_len - t,
    {
        let ghost before = ops@;
        let op = if t < pad {
            RowOp::Zero(t)
        } else {
            let abs_idx = start + (t - pad);
            if abs_idx >= history_len {
                RowOp::Zero(t)
            } else {
                RowOp::Fill { row: t, source: abs_idx }
            }
        };
        ops.push(op);
        proof {
            lemma_apply_ops_push(rows, before, op, time_len as nat);
            assert(ops@.subrange(0, ops0.len() as int) =~= ops0);
            assert(op == fill_op(start as int, history_len as int, time_len as int, t as int));
            assert(ops@ =~= ops0 + Seq::new((t + 1) as nat, |j: int| fill_op(start as int, history_len as int, time_len as int, j)));
        }
        t = t + 1;
    }
    proof {
        assert(Seq::new(t as nat, |j: int| fill_op(start as int, history_len as int, time_len as int, j)) =~= fill_ops(start as int, history_len as int, time_len as int));
        assert(apply_ops(rows, ops@, time_len as nat) =~= window_rows(
            start as int,
            history_len as int,
            time_len as int,
        ));
    }
}

/// Whether the cached rows cannot be updated in place and are rebuilt.
pub open spec fn needs_rebuild(
    cache: RfGpuInputCache,
    start: int,
    history_len: int,
    time_len: int,
    chunk_size: int,
) -> bool {
    ||| cache.time_len != time_len
    ||| cache.data_len != time_len * chunk_size
    ||| cache.history_len > history_len
    ||| start < cache.start
    ||| start > cache.start + time_len
}

/// Whether an in-place update from a cache that holds the window of its
/// bookkeeping yields the new window (the cases where the window slides
/// forward over a full old window, jumps a whole window, keeps its place
/// without new history, or first fills an empty window).
pub open spec fn incremental_exact(
    cache: RfGpuInputCache,
    start: int,
    history_len: int,
    time_len: int,
) -> bool {
    ||| start == cache.start + time_len
    ||| (start > cache.start && cache.history_len >= cache.start + time_len)
    ||| (start == cache.start && history_len == cache.history_len)
    ||| (start == cache.start && cache.history_len == start && history_len <= start + time_len)
}

/// Plans the update of the cached RF input rows to the window of
/// `time_len` rows that starts at history entry `start`.
///
/// The cache is rebuilt when its layout does not fit; otherwise rows that
/// slid out of the window are dropped and new rows are read.  On return
/// `cache` holds the bookkeeping that stands when a step of the plan fails;
/// `plan.committed` is what to store once every step succeeded.
#[verifier::rlimit(60)]
#[verifier::spinoff_prover]
pub fn update_rf_cache(
    cache: &mut RfGpuInputCache,
    start: usize,
    history_len: usize,
    time_len: usize,
    chunk_size: usize,
) -> (plan: RfCachePlan)
    requires
        time_len * chunk_size <= usize::MAX,
        start + time_len <= usize::MAX,
        old(cache).start + time_len <= usize::MAX,
    ensures
        needs_rebuild(*old(cache), start as int, history_len as int, time_len as int, chunk_size as int)
            ==> *final(cache) == (RfGpuInputCache {
            start,
            history_len,
            time_len,
            data_len: (time_len * chunk_size) as usize,
        }),
        !needs_rebuild(*old(cache), start as int, history_len as int, time_len as int, chunk_size as int)
            ==> *final(cache) == *old(cache),
        plan.committed == (RfGpuInputCache {
            start,
            history_len,
            time_len,
            data_len: (time_len * chunk_size) as usize,
        }),
        needs_rebuild(*old(cache), start as int, history_len as int, time_len as int, chunk_size as int)
            ==> plan.ops@ == seq![RowOp::Resize((time_len * chunk_size) as usize)] + fill_ops(
            start as int,
            history_len as int,
            time_len as int,
        ),
        !needs_rebuild(*old(cache), start as int, history_len as int, time_len as int, chunk_size as int)
            ==> plan.ops@ == incremental_ops(
            *old(cache),
            start as int,
            history_len as int,
            time_len as int,
        ),
        ops_in_bounds(plan.ops@, time_len as nat),
        reads_history(plan.ops@, history_len as nat),
        aborts(plan.ops@) <==> (!needs_rebuild(
            *old(cache),
            start as int,
            history_len as int,
            time_len as int,
            chunk_size as int,
        ) && old(cache).start < start < old(cache).start + time_len && start + time_len
            > history_len),
        needs_rebuild(*old(cache), start as int, history_len as int, time_len as int, chunk_size as int)
            ==> forall|rows: Seq<RowContent>|
            #![trigger apply_ops(rows, plan.ops@, time_len as nat)]
            apply_ops(rows, plan.ops@, time_len as nat) == window_rows(
                start as int,
                history_len as int,
                time_len as int,
            ),
        !needs_rebuild(*old(cache), start as int, history_len as int, time_len as int, chunk_size as int)
            && !aborts(plan.ops@) && incremental_exact(
            *old(cache),
            start as int,
            history_len as int,
            time_len as int,
        ) ==> apply_ops(
            window_rows(old(cache).start as int, old(cache).history_len as int, time_len as int),
            plan.ops@,
            time_len as nat,
        ) == window_rows(start as int, history_len as int, time_len as int),
{
    let total = time_len * chunk_size;
    let rebuild = cache.time_len != time_len || cache.data_len != total || cache.history_len
        > history_len || start < cache.start || start > cache.start + time_len;
    let mut ops: Vec<RowOp> = Vec::new();
    if rebuild {
        cache.start = start;
        cache.history_len = history_len;
        cache.time_len = time_len;
        cache.data_len = total;
        ops.push(RowOp::Resize(total));
        let ghost stale = Seq::new(time_len as nat, |i: int| RowContent::Stale);
        proof {
            assert forall|rows: Seq<RowContent>| #[trigger]
                apply_ops(rows, ops@, time_len as nat) == stale by {
                lemma_apply_ops_push(rows, Seq::empty(), RowOp::Resize(total), time_len as nat);
                assert(ops@ =~= Seq::<RowOp>::empty().push(RowOp::Resize(total)));
            }
        }
        push_fill_window(&mut ops, start, history_len, time_len, Ghost(stale));
        proof {
            assert forall|rows: Seq<RowContent>| #[trigger]
                apply_ops(rows, ops@, time_len as nat) == window_rows(
                    start as int,
                    history_len as int,
                    time_len as int,
                ) by {
                lemma_apply_ops_prefix_same(rows, stale, ops@, 1, time_len as nat);
            }
            assert(ops@[0] == RowOp::Resize(total)) by {
                assert(ops@.subrange(0, 1)[0] == ops@[0]);
            }
            assert(ops_in_bounds(ops@, time_len as nat));
            assert(reads_history(ops@, history_len as nat));
            assert(ops@ =~= seq![RowOp::Resize(total)] + fill_ops(
                start as int,
                history_len as int,
                time_len as int,
            ));
        }
        return RfCachePlan { ops, committed: *cache };
    }
    let prev_start = cache.start;
    let prev_end = prev_start + time_len;
    let dropped = if start > prev_start {
        start - prev_start
    } else {
        0
    };
    if dropped > 0 {
        if dropped >= time_len {
            push_fill_window(&mut ops, start, history_len, time_len, Ghost(window_rows(prev_start as int, cache.history_len as int, time_len as int)));
            assert(ops@ =~= incremental_ops(*cache, start as int, history_len as int, time_len as int));
        } else {
            let ghost w_old = window_rows(
                prev_start as int,
                cache.history_len as int,
                time_len as int,
            );
            ops.push(RowOp::ShiftUp(dropped));
            let ghost shifted_rows = apply_op(w_old, RowOp::ShiftUp(dropped), time_len as nat);
            proof {
                lemma_apply_ops_push(w_old, Seq::empty(), RowOp::ShiftUp(dropped), time_len as nat);
                assert(ops@ =~= Seq::<RowOp>::empty().push(RowOp::ShiftUp(dropped)));
            }
            let fill_start_t = time_len - dropped;
            // rows that can be read before the history runs out
            let readable: usize = if prev_end >= history_len {
                0
            } else if history_len - prev_end < dropped {
                history_len - prev_end
            } else {
                dropped
            };
            let mut t: usize = 0;
            while t < readable
                invariant
                    0 < dropped < time_len,
                    fill_start_t == time_len - dropped,
                    prev_end == prev_start + time_len,
                    prev_end + time_len <= usize::MAX + time_len,
                    readable <= dropped,
                    readable as int == (if prev_end >= history_len {
                        0
                    } else if history_len - prev_end < dropped {
                        history_len - prev_end
                    } else {
                        dropped as int
                    }),
                    t <= readable,
                    ops@.len() == t + 1,
                    ops@[0] == RowOp::ShiftUp(dropped),
                    shifted_rows.len() == time_len,
                    forall|i: int| 1 <= i < ops@.len() ==> #[trigger] ops@[i] == (RowOp::Fill {
                        row: (fill_start_t + i - 1) as usize,
                        source: (prev_end + i - 1) as usize,
                    }),
                    apply_ops(w_old, ops@, time_len as nat) == Seq::new(
                        time_len as nat,
                        |i: int|
                            if fill_start_t <= i < fill_start_t + t {
                                RowContent::History((prev_end + i - fill_start_t) as usize)
                            } else {
                                shifted_rows[i]
                            },
                    ),
                decreases readable - t,
            {
                let ghost before = ops@;
                let abs_idx = prev_end + t;
                let op = RowOp::Fill { row: fill_start_t + t, source: abs_idx };
                ops.push(op);
                proof {
                    lemma_apply_ops_push(w_old, before, op, time_len as nat);
                }
                t = t + 1;
                proof {
                    assert(apply_ops(w_old, ops@, time_len as nat) =~= Seq::new(
                        time_len as nat,
                        |i: int|
                            if fill_start_t <= i < fill_start_t + t {
                                RowContent::History((prev_end + i - fill_start_t) as usize)
                            } else {
                                shifted_rows[i]
                            },
                    ));
                }
            }
            let ghost reads = Seq::new(
                readable as nat,
                |i: int| RowOp::Fill { row: (time_len - dropped + i) as usize, source: (prev_end + i) as usize },
            );
            assert(ops@ =~= seq![RowOp::ShiftUp(dropped)] + reads);
            if readable < dropped {
                ops.push(RowOp::Abort);
                assert(ops@[ops@.len() - 1] == RowOp::Abort);
                assert(ops@ =~= seq![RowOp::ShiftUp(dropped)] + reads + seq![RowOp::Abort]);
            } else {
                assert(ops@ =~= seq![RowOp::ShiftUp(dropped)] + reads + Seq::<RowOp>::empty());
                proof {
                    if cache.history_len >= prev_start + time_len {
                        let w_new = window_rows(start as int, history_len as int, time_len as int);
                        assert forall|i: int| 0 <= i < time_len implies #[trigger] apply_ops(
                            w_old,
                            ops@,
                            time_len as nat,
                        )[i] == w_new[i] by {
                            if i < fill_start_t {
                                assert(shifted_rows[i] == w_old[i + dropped]);
                            }
                        }
                        assert(apply_ops(w_old, ops@, time_len as nat) =~= w_new);
                    }
                }
            }
        }
    } else if history_len > cache.history_len {
        let growth = history_len - cache.history_len;
        let tail_rows = if growth < time_len {
            growth
        } else {
            time_len
        };
        let fill_start_t = time_len - tail_rows;
        let ghost w_old = window_rows(prev_start as int, cache.history_len as int, time_len as int);
        let mut t: usize = 0;
        while t < tail_rows
            invariant
                tail_rows <= time_len,
                tail_rows <= history_len,
                fill_start_t == time_len - tail_rows,
                t <= tail_rows,
                ops@.len() == t,
                forall|i: int| 0 <= i < ops@.len() ==> #[trigger] ops@[i] == (RowOp::Fill {
                    row: (fill_start_t + i) as usize,
                    source: (history_len - tail_rows + i) as usize,
                }),
                apply_ops(w_old, ops@, time_len as nat) == Seq::new(
                    time_len as nat,
                    |i: int|
                        if fill_start_t <= i < fill_start_t + t {
                            RowContent::History((history_len - tail_rows + i - fill_start_t) as usize)
                        } else {
                            w_old[i]
                        },
                ),
            decreases tail_rows - t,
        {
            let ghost before = ops@;
            let abs_idx = history_len - tail_rows + t;
            let op = RowOp::Fill { row: fill_start_t + t, source: abs_idx };
            ops.push(op);
            proof {
                lemma_apply_ops_push(w_old, before, op, time_len as nat);
            }
            t = t + 1;
            proof {
                assert(apply_ops(w_old, ops@, time_len as nat) =~= Seq::new(
                    time_len as nat,
                    |i: int|
                        if fill_start_t <= i < fill_start_t + t {
                            RowContent::History((history_len - tail_rows + i - fill_start_t) as usize)
                        } else {
                            w_old[i]
                        },
                ));
            }
        }
        proof {
            if history_len <= start + time_len && cache.history_len == start {
                let w_new = window_rows(start as int, history_len as int, time_len as int);
                assert forall|i: int| 0 <= i < time_len implies #[trigger] apply_ops(
                    w_old,
                    ops@,
                    time_len as nat,
                )[i] == w_new[i] by {}
                assert(apply_ops(w_old, ops@, time_len as nat) =~= w_new);
            }
            assert(ops@ =~= incremental_ops(*cache, start as int, history_len as int, time_len as int));
        }
    } else {
        assert(ops@ =~= incremental_ops(*cache, start as int, history_len as int, time_len as int));
    }
    RfCachePlan {
        ops,
        committed: RfGpuInputCache { start, history_len, time_len, data_len: total },
    }
}

/// First entry of the window of `time_len` rows that ends at the newest of
/// `history_len` entries.
pub open spec fn trailing_start(history_len: int, time_len: int) -> int {
    if history_len > time_len {
        history_len - time_len
    } else {
        0
    }
}

/// When the window always ends at the newest history entry and the history
/// only grows, each update either rebuilds the cache or updates it in place
/// to exactly the new window without giving up; the one case left out is
/// a window that is partly filled and gains entries without jumping a whole
/// window, where the in-place update leaves the older entries misplaced.
pub proof fn rf_cache_follows_history(
    cache: RfGpuInputCache,
    history_len: usize,
    time_len: usize,
    chunk_size: usize,
)
    requires
        time_len > 0,
        cache.time_len == time_len,
        cache.data_len == time_len * chunk_size,
        cache.history_len <= history_len,
        cache.start == trailing_start(cache.history_len as int, time_len as int),
        cache.history_len >= time_len || cache.history_len == history_len || (cache.history_len
            == 0 && history_len <= time_len) || history_len >= 2 * time_len,
    ensures
        ({
            let start = trailing_start(history_len as int, time_len as int);
            ||| needs_rebuild(cache, start, history_len as int, time_len as int, chunk_size as int)
            ||| (incremental_exact(cache, start, history_len as int, time_len as int) && !(
            cache.start < start < cache.start + time_len && start + time_len > history_len))
        }),
{
}

} // verus!
