use lle_gui::rf_cache::{update_rf_cache, RfGpuInputCache, RowContent, RowOp};

fn window(start: usize, history_len: usize, time_len: usize) -> Vec<RowContent> {
    let valid = if history_len > start {
        (history_len - start).min(time_len)
    } else {
        0
    };
    let pad = time_len - valid;
    (0..time_len)
        .map(|t| {
            if t < pad || start + (t - pad) >= history_len {
                RowContent::Zero
            } else {
                RowContent::History(start + (t - pad))
            }
        })
        .collect()
}

fn apply(rows: &mut Vec<RowContent>, ops: &[RowOp], time_len: usize) -> bool {
    for op in ops {
        match *op {
            RowOp::Resize(_) => *rows = vec![RowContent::Stale; time_len],
            RowOp::Zero(t) => rows[t] = RowContent::Zero,
            RowOp::Fill { row, source } => rows[row] = RowContent::History(source),
            RowOp::ShiftUp(d) => {
                for i in 0..time_len - d {
                    rows[i] = rows[i + d];
                }
            }
            RowOp::Abort => return false,
        }
    }
    true
}

fn trailing(history_len: usize, time_len: usize) -> usize {
    history_len.saturating_sub(time_len)
}

#[test]
fn rebuild_on_first_use_fills_whole_window() {
    let mut cache = RfGpuInputCache { start: 0, history_len: 0, time_len: 0, data_len: 0 };
    let plan = update_rf_cache(&mut cache, 2, 6, 4, 3);
    assert_eq!(plan.ops[0], RowOp::Resize(12));
    assert_eq!(cache, RfGpuInputCache { start: 2, history_len: 6, time_len: 4, data_len: 12 });
    assert_eq!(plan.committed, cache);
    let mut rows = vec![RowContent::Stale; 4];
    assert!(apply(&mut rows, &plan.ops, 4));
    assert_eq!(rows, window(2, 6, 4));
    assert_eq!(
        rows,
        vec![
            RowContent::History(2),
            RowContent::History(3),
            RowContent::History(4),
            RowContent::History(5)
        ]
    );
}

#[test]
fn sliding_window_shifts_and_reads_new_rows() {
    let mut cache = RfGpuInputCache { start: 2, history_len: 6, time_len: 4, data_len: 12 };
    let plan = update_rf_cache(&mut cache, 4, 8, 4, 3);
    assert_eq!(
        plan.ops,
        vec![
            RowOp::ShiftUp(2),
            RowOp::Fill { row: 2, source: 6 },
            RowOp::Fill { row: 3, source: 7 }
        ]
    );
    // bookkeeping is only stored once the plan succeeded
    assert_eq!(cache.start, 2);
    assert_eq!(plan.committed.start, 4);
    assert_eq!(plan.committed.history_len, 8);
    let mut rows = window(2, 6, 4);
    assert!(apply(&mut rows, &plan.ops, 4));
    assert_eq!(rows, window(4, 8, 4));
}

#[test]
fn unchanged_history_needs_no_work() {
    let mut cache = RfGpuInputCache { start: 3, history_len: 7, time_len: 4, data_len: 8 };
    let plan = update_rf_cache(&mut cache, 3, 7, 4, 2);
    assert!(plan.ops.is_empty());
}

#[test]
fn short_history_pads_front_with_zeros() {
    let mut cache = RfGpuInputCache { start: 9, history_len: 0, time_len: 2, data_len: 0 };
    let plan = update_rf_cache(&mut cache, 0, 2, 4, 1);
    let mut rows = vec![RowContent::Stale; 4];
    assert!(apply(&mut rows, &plan.ops, 4));
    assert_eq!(
        rows,
        vec![RowContent::Zero, RowContent::Zero, RowContent::History(0), RowContent::History(1)]
    );
}

#[test]
fn slide_past_history_end_aborts() {
    let mut cache = RfGpuInputCache { start: 0, history_len: 4, time_len: 4, data_len: 4 };
    let plan = update_rf_cache(&mut cache, 2, 5, 4, 1);
    assert_eq!(*plan.ops.last().unwrap(), RowOp::Abort);
    assert_eq!(plan.ops[0], RowOp::ShiftUp(2));
    assert_eq!(plan.ops[1], RowOp::Fill { row: 2, source: 4 });
}

#[test]
fn cache_follows_growing_history() {
    let time_len = 8;
    let chunk = 3;
    let mut cache = RfGpuInputCache { start: 0, history_len: 0, time_len: 0, data_len: 0 };
    let mut rows: Vec<RowContent> = Vec::new();
    // one entry, then many at a time so that the partly filled window is skipped
    for history_len in [1usize, 16, 17, 18, 23, 40, 41] {
        let start = trailing(history_len, time_len);
        let plan = update_rf_cache(&mut cache, start, history_len, time_len, chunk);
        assert!(apply(&mut rows, &plan.ops, time_len));
        cache = plan.committed;
        assert_eq!(rows, window(start, history_len, time_len), "history {history_len}");
    }
}

#[test]
fn partly_filled_window_that_grows_misplaces_rows() {
    // the one case the in-place update gets wrong
    let mut cache = RfGpuInputCache { start: 0, history_len: 1, time_len: 4, data_len: 4 };
    let mut rows = window(0, 1, 4);
    let plan = update_rf_cache(&mut cache, 0, 2, 4, 1);
    assert!(apply(&mut rows, &plan.ops, 4));
    assert_ne!(rows, window(0, 2, 4));
    assert_eq!(
        rows,
        vec![RowContent::Zero, RowContent::Zero, RowContent::Zero, RowContent::History(1)]
    );
}

#[test]
fn partly_filled_window_growth_reads_only_the_new_entry() {
    // a window of four rows holding one entry gains a second one in place:
    // only the newest entry is read, into the last row
    let mut cache = RfGpuInputCache { start: 0, history_len: 1, time_len: 4, data_len: 8 };
    let plan = update_rf_cache(&mut cache, 0, 2, 4, 2);
    assert_eq!(plan.ops, vec![RowOp::Fill { row: 3, source: 1 }]);
    let mut rows = window(0, 1, 4);
    assert_eq!(
        rows,
        vec![RowContent::Zero, RowContent::Zero, RowContent::Zero, RowContent::History(0)]
    );
    assert!(apply(&mut rows, &plan.ops, 4));
    assert_eq!(
        rows,
        vec![RowContent::Zero, RowContent::Zero, RowContent::Zero, RowContent::History(1)]
    );
}
