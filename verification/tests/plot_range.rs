use lle_gui::plot_range::{PlotRange, RangeDecision};

#[test]
fn new_range_starts_unscaled() {
    let p = PlotRange::new(10, 50, 5, 20, 9, 1.0f64, 0.0f64);
    assert_eq!(p.dis, 1.0);
    assert_eq!(p.center, 0.0);
    assert_eq!(p.lazy_count, (0, 50));
    assert_eq!(p.adapt, (1, 5, 20, 9));
    assert_eq!(p.scale_radix, 10);
}

#[test]
fn contained_data_keeps_range_until_limit() {
    let mut p = PlotRange::new(10, 2, 0, 10, 9, 1.0f64, 0.0f64);
    assert_eq!(p.update(true), RangeDecision::Keep);
    assert_eq!(p.update(true), RangeDecision::Keep);
    assert_eq!(p.lazy_count.0, 2);
    // the limit is reached: refit even though the data fits
    assert_eq!(p.update(true), RangeDecision::Rescale { factor: 1 });
    assert_eq!(p.lazy_count.0, 0);
}

#[test]
fn frequent_refits_raise_factor_and_rare_ones_lower_it() {
    let mut p = PlotRange::new(10, 100, 3, 8, 4, 1.0f64, 0.0f64);
    // refit right away: fewer than 3 kept updates raise the factor up to 4
    assert_eq!(p.update(false), RangeDecision::Rescale { factor: 2 });
    assert_eq!(p.update(false), RangeDecision::Rescale { factor: 3 });
    assert_eq!(p.update(false), RangeDecision::Rescale { factor: 4 });
    assert_eq!(p.update(false), RangeDecision::Rescale { factor: 4 });
    // between 3 and 8 kept updates: unchanged
    for _ in 0..5 {
        assert_eq!(p.update(true), RangeDecision::Keep);
    }
    assert_eq!(p.update(false), RangeDecision::Rescale { factor: 4 });
    // more than 8 kept updates: lowered by five, at least one
    for _ in 0..9 {
        p.update(true);
    }
    assert_eq!(p.update(false), RangeDecision::Rescale { factor: 1 });
    p.adapt.0 = 12;
    for _ in 0..9 {
        p.update(true);
    }
    assert_eq!(p.update(false), RangeDecision::Rescale { factor: 7 });
    p.set_bound(3.5, 2.0);
    assert_eq!((p.center, p.dis), (3.5, 2.0));
}
