use vstd::prelude::*;

verus! {

/// What to do with the plotted range after new data arrived.
#[derive(Clone, Copy, PartialEq, Eq, Debug)]
pub enum RangeDecision {
    /// Keep the current range.
    Keep,
    /// Fit a new range, with the scale magnified by this factor.
    Rescale { factor: u32 },
}

/// A plot range that follows the data lazily: it stays put while the data
/// fits, for a limited number of updates, and adapts how coarsely it is
/// rounded to how often it has to move.
///
/// `lazy_count` is (updates kept so far, most updates kept in a row);
/// `adapt` is (magnification factor, a refresh after fewer kept updates
/// raises it, a refresh after more kept updates lowers it, largest factor).
#[derive(Debug)]
pub struct PlotRange<T> {
    pub dis: T,
    pub center: T,
    pub lazy_count: (u32, u32),
    pub adapt: (u32, u32, u32, u32),
    pub scale_radix: u32,
}

/// The magnification factor after a refresh that followed `kept` kept
/// updates.
pub open spec fn next_factor(kept: u32, adapt: (u32, u32, u32, u32)) -> u32 {
    if kept < adapt.1 {
        if adapt.0 + 1 < adapt.3 {
            (adapt.0 + 1) as u32
        } else {
            adapt.3
        }
    } else if kept > adapt.2 {
        if adapt.0 > 6 {
            (adapt.0 - 5) as u32
        } else {
            1
        }
    } else {
        adapt.0
    }
}

/// Whether an update in which the data `contained` in the current range
/// keeps the range.
pub open spec fn keeps_range(lazy_count: (u32, u32), contained: bool) -> bool {
    contained && lazy_count.0 < lazy_count.1
}

impl<T> PlotRange<T> {
    /// A range of width `one` around `zero`, with no update kept yet and
    /// magnification factor one.
    pub fn new(
        scale_radix: u32,
        max_lazy: u32,
        min_refresh_adapt: u32,
        max_refresh_adapt: u32,
        max_adapt_factor: u32,
        one: T,
        zero: T,
    ) -> (r: Self)
        ensures
            r.dis == one,
            r.center == zero,
            r.scale_radix == scale_radix,
            r.lazy_count == (0u32, max_lazy),
            r.adapt == (1u32, min_refresh_adapt, max_refresh_adapt, max_adapt_factor),
    {
        PlotRange {
            dis: one,
            center: zero,
            scale_radix,
            lazy_count: (0, max_lazy),
            adapt: (1, min_refresh_adapt, max_refresh_adapt, max_adapt_factor),
        }
    }

    /// Decides, for new data that is or is not `contained` in the current
    /// range, whether to keep the range or to fit a new one, and updates the
    /// counters.
    pub fn update(&mut self, contained: bool) -> (d: RangeDecision)
        requires
            keeps_range(old(self).lazy_count, contained) || old(self).lazy_count.0
                >= old(self).adapt.1 || old(self).adapt.0 < u32::MAX,
        ensures
            final(self).dis == old(self).dis,
            final(self).center == old(self).center,
            final(self).scale_radix == old(self).scale_radix,
            final(self).lazy_count.1 == old(self).lazy_count.1,
            final(self).adapt.1 == old(self).adapt.1,
            final(self).adapt.2 == old(self).adapt.2,
            final(self).adapt.3 == old(self).adapt.3,
            keeps_range(old(self).lazy_count, contained) ==> {
                &&& d == RangeDecision::Keep
                &&& final(self).lazy_count.0 == old(self).lazy_count.0 + 1
                &&& final(self).adapt.0 == old(self).adapt.0
            },
            !keeps_range(old(self).lazy_count, contained) ==> {
                &&& d == RangeDecision::Rescale {
                    factor: next_factor(old(self).lazy_count.0, old(self).adapt),
                }
                &&& final(self).lazy_count.0 == 0
                &&& final(self).adapt.0 == next_factor(old(self).lazy_count.0, old(self).adapt)
            },
    {
        if contained && self.lazy_count.0 < self.lazy_count.1 {
            self.lazy_count.0 = self.lazy_count.0 + 1;
            return RangeDecision::Keep;
        }
        if self.lazy_count.0 < self.adapt.1 {
            let raised = self.adapt.0 + 1;
            self.adapt.0 = if raised < self.adapt.3 {
                raised
            } else {
                self.adapt.3
            };
        } else if self.lazy_count.0 > self.adapt.2 {
            let floor: u32 = if self.adapt.0 > 6 {
                self.adapt.0
            } else {
                6
            };
            self.adapt.0 = floor - 5;
        }
        self.lazy_count.0 = 0;
        RangeDecision::Rescale { factor: self.adapt.0 }
    }

    /// Stores the range that was fitted after a rescale.
    pub fn set_bound(&mut self, center: T, dis: T)
        ensures
            final(self).center == center,
            final(self).dis == dis,
            final(self).lazy_count == old(self).lazy_count,
            final(self).adapt == old(self).adapt,
            final(self).scale_radix == old(self).scale_radix,
    {
        self.center = center;
        self.dis = dis;
    }
}

/// The magnification factor never drops below one, and never rises above
/// the larger of its current value and the largest factor.
pub proof fn factor_stays_in_bounds(kept: u32, adapt: (u32, u32, u32, u32))
    requires
        adapt.0 >= 1,
        adapt.3 >= 1,
    ensures
        1 <= next_factor(kept, adapt),
        next_factor(kept, adapt) <= if adapt.0 > adapt.3 {
            adapt.0
        } else {
            adapt.3
        },
{
}

/// A range that is refitted restarts its count of kept updates, so data
/// that keeps fitting is kept for exactly `lazy_count.1` updates in a row.
pub proof fn kept_updates_are_bounded(lazy_count: (u32, u32), contained: bool)
    ensures
        keeps_range(lazy_count, contained) ==> lazy_count.0 + 1 <= lazy_count.1,
        lazy_count.0 >= lazy_count.1 ==> !keeps_range(lazy_count, contained),
{
}

} // verus!
