use lle_gui::history::{FftSource, History, StoredHistory};

#[test]
fn inactive_history_ignores_data() {
    let mut h: History<Vec<u32>> = History::default();
    assert!(!h.is_active());
    h.push(&vec![1, 2]);
    assert!(h.get_data_size().is_none());
}

#[test]
fn armed_history_records_from_first_push() {
    let mut h: History<Vec<u32>> = History::new();
    h.active();
    assert!(h.is_active());
    assert!(h.get_data_size().is_none());
    h.push(&vec![1, 2, 3]);
    h.push(&vec![4, 5, 6]);
    let (data, dim) = h.get_data_size().unwrap();
    assert_eq!(dim, 3);
    assert_eq!(data, &[vec![1, 2, 3], vec![4, 5, 6]]);
    // arming again keeps the record
    h.active();
    assert_eq!(h.get_data_size().unwrap().0.len(), 2);
    h.reset();
    assert!(!h.is_active());
    assert!(h.get_data_size().is_none());
}

#[test]
fn stored_history_dimension_from_first_state() {
    let mut s = StoredHistory::new(vec![vec![0u8; 4], vec![0u8; 2]]);
    s.push(&vec![1u8; 7]);
    let (data, dim) = s.data_size();
    assert_eq!(dim, 4);
    assert_eq!(data.len(), 3);
    assert_eq!(vec![1u8, 2].data_len(), 2);
}

#[test]
fn frame_recording_and_restart() {
    let mut h: History<Vec<i32>> = History::new();
    assert!(!h.wants_frame(false));
    assert!(h.wants_frame(true));
    h.restart_with(&vec![1]);
    assert!(!h.is_active());
    h.active();
    assert!(h.wants_frame(false));
    h.push(&vec![1, 2]);
    h.push(&vec![3, 4]);
    assert!(!h.wants_frame(false));
    h.restart_with(&vec![9, 9, 9]);
    let (data, dim) = h.get_data_size().unwrap();
    assert_eq!(data, &[vec![9, 9, 9]]);
    assert_eq!(dim, 3);
}

#[test]
fn record_switch_arms_and_discards() {
    let mut h: History<Vec<u32>> = History::new();
    h.set_recording(true);
    assert!(h.is_active());
    h.push(&vec![1, 2]);
    h.set_recording(true);
    assert_eq!(h.get_data_size().unwrap().0.len(), 1);
    h.set_recording(false);
    assert!(!h.is_active());
    assert!(h.get_data_size().is_none());
}

#[test]
fn record_holds_pushes_since_last_arming() {
    let mut h: History<Vec<u32>> = History::new();
    h.push(&vec![9]);
    h.active();
    h.push(&vec![1, 2]);
    h.push(&vec![3, 4]);
    h.reset();
    h.push(&vec![8, 8]);
    h.active();
    h.push(&vec![5, 6, 7]);
    h.active();
    h.push(&vec![1, 1, 1]);
    let (data, dim) = h.get_data_size().unwrap();
    assert_eq!(data, &[vec![5, 6, 7], vec![1, 1, 1]]);
    assert_eq!(dim, 3);
}
