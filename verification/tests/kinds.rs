use lle_gui::kinds::{Component, DrawRange, PlotKind};

#[test]
fn labels() {
    assert_eq!(PlotKind::Line.desc(), "Line");
    assert_eq!(PlotKind::Points.desc(), "Points");
    assert_eq!(Component::Real.desc(), "Real");
    assert_eq!(Component::Imag.desc(), "Imag");
    assert_eq!(Component::Abs.desc(), "Abs");
    assert_eq!(Component::Arg.desc(), "Arg");
}

#[test]
fn component_numbers_and_default() {
    assert_eq!(Component::default(), Component::Abs);
    assert_eq!(Component::Real.to_index(), 0);
    assert_eq!(Component::Arg.to_index(), 3);
    assert!(matches!(DrawRange::<(f64, f64)>::default(), DrawRange::Auto(None)));
}

use lle_gui::kinds::{history_axis, history_fetch_plan, HistoryFetch, HistoryViewKind};

#[test]
fn history_axis_labels() {
    assert_eq!(history_axis(HistoryViewKind::Raw, Some(100)), ("Record index", 0));
    assert_eq!(history_axis(HistoryViewKind::RfFft, Some(100)), ("RF index", -50));
    assert_eq!(history_axis(HistoryViewKind::RfFft, Some(7)), ("RF index", -3));
    assert_eq!(history_axis(HistoryViewKind::RfFft, None), ("RF index", 0));
}

#[test]
fn history_fetch_decisions() {
    assert_eq!(history_fetch_plan(false, true, false, true, true, HistoryViewKind::RfFft), (false, HistoryFetch::Nothing));
    assert_eq!(history_fetch_plan(true, false, false, true, true, HistoryViewKind::RfFft), (false, HistoryFetch::Nothing));
    assert_eq!(history_fetch_plan(true, true, false, false, true, HistoryViewKind::RfFft), (true, HistoryFetch::Rf));
    assert_eq!(history_fetch_plan(true, true, true, false, true, HistoryViewKind::RfFft), (false, HistoryFetch::Nothing));
    assert_eq!(history_fetch_plan(true, true, true, true, false, HistoryViewKind::RfFft), (false, HistoryFetch::Raw));
    assert_eq!(history_fetch_plan(true, true, true, true, true, HistoryViewKind::Raw), (false, HistoryFetch::Raw));
}
