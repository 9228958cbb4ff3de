use vstd::prelude::*;

verus! {

/// How a series is drawn.
#[derive(Clone, Copy, PartialEq, Eq, Debug)]
pub enum PlotKind {
    Line,
    Points,
}

impl PlotKind {
    /// The label shown for this kind.
    pub fn desc(&self) -> (s: &'static str)
        ensures
            *self == PlotKind::Line ==> s@ == "Line"@,
            *self == PlotKind::Points ==> s@ == "Points"@,
    {
        match self {
            PlotKind::Line => "Line",
            PlotKind::Points => "Points",
        }
    }
}

/// Which part of a complex sample is shown.
#[derive(Clone, Copy, PartialEq, Eq, Debug)]
pub enum Component {
    Real,
    Imag,
    Abs,
    Arg,
}

impl Component {
    /// The number the GPU pipeline uses for this component (declaration
    /// order).
    pub open spec fn index(&self) -> u32 {
        match *self {
            Component::Real => 0,
            Component::Imag => 1,
            Component::Abs => 2,
            Component::Arg => 3,
        }
    }

    /// The number the GPU pipeline uses for this component.
    pub fn to_index(&self) -> (n: u32)
        ensures
            n == self.index(),
            n == *self as u32,
    {
        match self {
            Component::Real => 0,
            Component::Imag => 1,
            Component::Abs => 2,
            Component::Arg => 3,
        }
    }

    /// The label shown for this component.
    pub fn desc(&self) -> (s: &'static str)
        ensures
            *self == Component::Real ==> s@ == "Real"@,
            *self == Component::Imag ==> s@ == "Imag"@,
            *self == Component::Abs ==> s@ == "Abs"@,
            *self == Component::Arg ==> s@ == "Arg"@,
    {
        match self {
            Component::Real => "Real",
            Component::Imag => "Imag",
            Component::Abs => "Abs",
            Component::Arg => "Arg",
        }
    }
}

/// The GPU number of a component is its place in the declaration order
/// (`Real`, `Imag`, `Abs`, `Arg` are 0 to 3), the number the enumeration
/// itself converts to; different components have different numbers, and
/// the default component shown, `Abs`, has number 2.
pub proof fn component_index_is_declaration_order(c: Component, d: Component)
    ensures
        c.index() == c as u32,
        c.index() < 4,
        c.index() == d.index() ==> c == d,
        Component::Abs.index() == 2,
{
}

impl Default for Component {
    fn default() -> (c: Self)
        ensures
            c == Component::Abs,
    {
        Component::Abs
    }
}

/// A value range that is either found from the data (`Auto`, unknown until
/// data arrives) or fixed.
#[derive(Clone, Debug)]
pub enum DrawRange<A> {
    Auto(Option<A>),
    Static(A),
}

impl<A> Default for DrawRange<A> {
    fn default() -> (r: Self)
        ensures
            r == DrawRange::<A>::Auto(None),
    {
        DrawRange::Auto(None)
    }
}

/// How recorded history is shown: as raw rows, or as the spectrum over
/// time of each bin (RF spectrum).
#[derive(Clone, Copy, PartialEq, Eq, Debug)]
pub enum HistoryViewKind {
    Raw,
    RfFft,
}

/// Half of `x`, rounded toward zero.
pub open spec fn half_toward_zero(x: i32) -> int {
    if x >= 0 {
        x / 2
    } else {
        -((-x) / 2)
    }
}

/// The label of the history axis and the shift of its tick labels: record
/// indices from zero for raw history, RF indices centred on zero (shifted by
/// half the record length) for the RF spectrum.
pub fn history_axis(view: HistoryViewKind, max_log: Option<usize>) -> (r: (&'static str, i32))
    ensures
        view == HistoryViewKind::Raw ==> r.0@ == "Record index"@ && r.1 == 0,
        view == HistoryViewKind::RfFft ==> r.0@ == "RF index"@ && r.1 == -half_toward_zero(
            (match max_log {
                Some(m) => m,
                None => 0usize,
            }) as i32,
        ),
{
    match view {
        HistoryViewKind::Raw => ("Record index", 0),
        HistoryViewKind::RfFft => {
            let m = match max_log {
                Some(m) => m,
                None => 0,
            };
            let half = (m as i32) / 2;
            ("RF index", -half)
        },
    }
}

/// How a history chart is refreshed in a frame.
#[derive(Clone, Copy, PartialEq, Eq, Debug)]
pub enum HistoryFetch {
    /// Leave the map as it is.
    Nothing,
    /// Redraw the raw history.
    Raw,
    /// Redraw the RF spectrum of the history.
    Rf,
}

/// Whether a history chart creates its drawer, and how it refreshes it:
/// only while history is shown and recorded; a new drawer or a running
/// simulation refreshes it, with the RF spectrum when the chart works in
/// the frequency domain and the RF view is selected.
pub fn history_fetch_plan(
    show_history: bool,
    recorded: bool,
    drawer_exists: bool,
    running: bool,
    fft_enabled: bool,
    view: HistoryViewKind,
) -> (r: (bool, HistoryFetch))
    ensures
        !(show_history && recorded) ==> r == (false, HistoryFetch::Nothing),
        show_history && recorded ==> {
            &&& r.0 == !drawer_exists
            &&& !(running || !drawer_exists) ==> r.1 == HistoryFetch::Nothing
            &&& (running || !drawer_exists) ==> r.1 == (if fft_enabled && view
                == HistoryViewKind::RfFft {
                HistoryFetch::Rf
            } else {
                HistoryFetch::Raw
            })
        },
{
    if !(show_history && recorded) {
        return (false, HistoryFetch::Nothing);
    }
    let created = !drawer_exists;
    let fetch = running || created;
    if !fetch {
        return (created, HistoryFetch::Nothing);
    }
    let rf_view = match view {
        HistoryViewKind::RfFft => true,
        HistoryViewKind::Raw => false,
    };
    if fft_enabled && rf_view {
        (created, HistoryFetch::Rf)
    } else {
        (created, HistoryFetch::Raw)
    }
}

} // verus!
