use lle_gui::mode_layout::{
    coupling_layout_negative, coupling_layout_positive, decoupling_layout_negative,
    decoupling_layout_positive, ModeSlot,
};

fn singular_every(period: i32, offset: i32, range: impl Iterator<Item = i32>) -> Vec<bool> {
    range.map(|f| (f + offset).rem_euclid(period) == 0).collect()
}

#[test]
fn positive_layouts_agree() {
    let len = 32usize;
    let singular = singular_every(7, 2, 0..=len as i32);
    let c = coupling_layout_positive(len, &singular);
    let d = decoupling_layout_positive(len, &singular);
    assert_eq!(c.len(), d.len());
    for (a, b) in c.iter().zip(d.iter()) {
        assert_eq!(a.freq, b.freq);
        assert_eq!(a.pair, b.pair);
        assert_eq!(a.first + a.second, b.first);
    }
    assert!(c.last().unwrap().freq as usize <= len);
}

#[test]
fn positive_layout_without_singularity_is_pairs() {
    let singular = vec![false; 5];
    let c = coupling_layout_positive(4, &singular);
    assert_eq!(
        c,
        vec![
            ModeSlot { freq: 0, pair: true, first: 0, second: 0 },
            ModeSlot { freq: 2, pair: true, first: 1, second: 1 },
            ModeSlot { freq: 4, pair: true, first: 2, second: 2 },
        ]
    );
}

#[test]
fn singular_mode_advances_one_ring() {
    let singular = vec![true, false, false, true, false];
    let c = coupling_layout_positive(4, &singular);
    assert_eq!(
        c,
        vec![
            ModeSlot { freq: 0, pair: false, first: 0, second: 0 },
            ModeSlot { freq: 1, pair: true, first: 1, second: 0 },
            ModeSlot { freq: 3, pair: false, first: 2, second: 1 },
            ModeSlot { freq: 4, pair: true, first: 3, second: 1 },
        ]
    );
    let d = decoupling_layout_positive(4, &singular);
    assert_eq!(d.iter().map(|m| m.first).collect::<Vec<_>>(), vec![0, 1, 3, 4]);
}

#[test]
fn negative_layouts_agree() {
    let len = 32usize;
    // singular[k] stands for frequency -1 - k
    let singular = singular_every(7, 2, (0..len as i32).map(|k| -1 - k));
    let c = coupling_layout_negative(len, &singular);
    let d = decoupling_layout_negative(len, &singular);
    assert_eq!(c.len(), d.len());
    assert_eq!(c[0].freq, -1);
    for (a, b) in c.iter().zip(d.iter()) {
        assert_eq!(a.freq, b.freq);
        assert_eq!(a.pair, b.pair);
        assert_eq!(a.first + a.second, b.first);
        assert!(-a.freq <= len as i32 - 1);
    }
}

#[test]
fn tiny_states_have_no_negative_modes() {
    assert!(coupling_layout_negative(1, &vec![]).is_empty());
    assert!(decoupling_layout_negative(0, &vec![]).is_empty());
}
