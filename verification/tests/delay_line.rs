use lle_gui::delay_line::{loop_window_bounds, DelayLine};

#[test]
fn delay_line_cycles_through_slots() {
    let mut d = DelayLine::new(3);
    assert_eq!(d.slots(), 4);
    assert_eq!(d.required_len(10), 40);
    let writes: Vec<usize> = (0..7).map(|_| d.advance()).collect();
    assert_eq!(writes, vec![0, 1, 2, 0, 1, 2, 0]);
    assert_eq!(d.now(), 1);
    assert_eq!(d.read_range(10), (10, 20));
}

#[test]
fn read_slot_lags_delay_minus_one() {
    let mut d = DelayLine::new(3);
    let mut writes = Vec::new();
    for n in 0..10 {
        writes.push(d.advance());
        if n >= 2 {
            assert_eq!(d.now(), writes[n - 2]);
        }
    }
}

#[test]
fn no_delay_reads_what_was_written() {
    for delay in [0usize, 1] {
        let mut d = DelayLine::new(delay);
        for _ in 0..3 {
            let w = d.advance();
            assert_eq!(w, 0);
            assert_eq!(d.now(), w);
        }
    }
}

#[test]
fn shrinking_delay_restarts_at_zero() {
    let mut d = DelayLine::with_position(5, 8);
    d.set_delay(2);
    assert_eq!(d.delay(), 2);
    assert_eq!(d.advance(), 0);
    assert_eq!(d.now(), 1);
}

#[test]
fn loop_window_band() {
    assert_eq!(loop_window_bounds(0), None);
    assert_eq!(loop_window_bounds(100), Some((-49, 50)));
    assert_eq!(loop_window_bounds(5), Some((-2, 2)));
    assert_eq!(loop_window_bounds(1), Some((0, 0)));
}

#[test]
fn ring_returns_state_stored_delay_updates_ago() {
    let mut line = DelayLine::new(3);
    let mut ring: Vec<i32> = Vec::new();
    let mut reads = Vec::new();
    for k in 1..=6 {
        line.store(&mut ring, &[k, -k], 0);
        assert_eq!(ring.len(), 8);
        reads.push(line.current(&ring, 2));
    }
    assert_eq!(
        reads,
        vec![vec![0, 0], vec![0, 0], vec![1, -1], vec![2, -2], vec![3, -3], vec![4, -4]]
    );
}

#[test]
fn delay_one_reads_the_state_just_stored() {
    let mut line = DelayLine::new(1);
    let mut ring: Vec<u8> = Vec::new();
    line.store(&mut ring, &[5], 0);
    assert_eq!(line.current(&ring, 1), vec![5]);
    line.store(&mut ring, &[6], 0);
    assert_eq!(line.current(&ring, 1), vec![6]);
}
