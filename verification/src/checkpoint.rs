use vstd::prelude::*;
use vstd::string::StringExecFns;
use crate::file::Extension;

verus! {

/// A saved state with an optional tag.
#[derive(Clone, Debug)]
pub struct CheckPoint<S> {
    pub name: Option<String>,
    pub state: S,
}

/// A value that can be saved to a checkpoint and brought back from one.
pub trait Restorable: Sized {
    type Store;

    /// Whether `after` is what restoring `before` from `checkpoint` gives.
    /// A restorable value states its own rule here; by default nothing is
    /// claimed.
    open spec fn restores(before: Self, checkpoint: CheckPoint<Self::Store>, after: Self) -> bool {
        true
    }

    /// Whether `checkpoint` is what saving this value gives.  A restorable
    /// value states its own rule here; by default nothing is claimed.
    open spec fn saves(&self, checkpoint: CheckPoint<Self::Store>) -> bool {
        true
    }

    fn checkpoint(&self) -> (c: CheckPoint<Self::Store>)
        ensures
            self.saves(c),
    ;

    fn restore_by_ref(&mut self, checkpoint: &CheckPoint<Self::Store>)
        ensures
            Self::restores(*old(self), *checkpoint, *final(self)),
    ;
}

/// What the user did in the checkpoint panel.
#[derive(Clone, Copy, PartialEq, Eq, Debug)]
pub enum CheckPointEvent {
    /// Clicked the checkpoint with this index: it becomes the selection.
    Click(usize),
    /// Double-clicked the checkpoint with this index: it becomes the
    /// selection and is restored.
    DoubleClick(usize),
    /// Pressed "load": the selection is restored.
    Load,
    /// Pressed "delete": the selection is removed.
    Delete,
}

/// A list of checkpoints with an optional selection.
#[derive(Clone, Debug)]
pub struct CheckPoints<S> {
    checkpoints: Vec<CheckPoint<S>>,
    current: Option<usize>,
}

impl<S> CheckPoints<S> {
    /// The saved checkpoints, oldest first.
    pub closed spec fn points(&self) -> Seq<CheckPoint<S>> {
        self.checkpoints@
    }

    /// The selected checkpoint, if any.
    pub closed spec fn selection(&self) -> Option<usize> {
        self.current
    }

    /// The selection, when there is one, names a saved checkpoint.
    pub open spec fn wf(&self) -> bool {
        self.selection() matches Some(i) ==> i < self.points().len()
    }

    /// No checkpoints and no selection.
    pub fn new() -> (r: Self)
        ensures
            r.points().len() == 0,
            r.selection() is None,
    {
        CheckPoints { checkpoints: Vec::new(), current: None }
    }

    /// A list restored from saved parts.
    pub fn from_parts(checkpoints: Vec<CheckPoint<S>>, current: Option<usize>) -> (r: Self)
        ensures
            r.points() == checkpoints@,
            r.selection() == current,
    {
        CheckPoints { checkpoints, current }
    }

    /// The saved checkpoints and the selection.
    pub fn into_parts(self) -> (r: (Vec<CheckPoint<S>>, Option<usize>))
        ensures
            r.0@ == self.points(),
            r.1 == self.selection(),
    {
        (self.checkpoints, self.current)
    }

    /// Number of saved checkpoints.
    pub fn len(&self) -> (n: usize)
        ensures
            n == self.points().len(),
    {
        self.checkpoints.len()
    }

    /// The selected checkpoint's index, if any.
    pub fn current(&self) -> (c: Option<usize>)
        ensures
            c == self.selection(),
    {
        self.current
    }

    /// The checkpoint with the given index.
    pub fn get(&self, index: usize) -> (c: &CheckPoint<S>)
        requires
            index < self.points().len(),
        ensures
            *c == self.points()[index as int],
    {
        &self.checkpoints[index]
    }

    /// Saves the state of `t` as a new, last checkpoint.
    pub fn add<T: Restorable<Store = S>>(&mut self, t: &mut T)
        ensures
            *final(t) == *old(t),
            old(t).saves(final(self).points().last()),
            final(self).points().len() == old(self).points().len() + 1,
            final(self).points().subrange(0, old(self).points().len() as int) == old(self).points(),
            final(self).selection() == old(self).selection(),
    {
        let c = t.checkpoint();
        self.checkpoints.push(c);
        assert(self.checkpoints@.subrange(0, old(self).checkpoints@.len() as int)
            =~= old(self).checkpoints@);
    }

    /// Restores `t` from the checkpoint with the given index; the list is
    /// left as it was.
    pub fn restore<T: Restorable<Store = S>>(&mut self, t: &mut T, index: usize)
        requires
            index < old(self).points().len(),
        ensures
            T::restores(*old(t), old(self).points()[index as int], *final(t)),
            final(self).points() == old(self).points(),
            final(self).selection() == old(self).selection(),
    {
        t.restore_by_ref(&self.checkpoints[index]);
    }

    /// Removes the checkpoint with the given index; the others keep their
    /// order, and the selection is left as it was.
    pub fn delete(&mut self, index: usize)
        requires
            index < old(self).points().len(),
        ensures
            final(self).points() == old(self).points().remove(index as int),
            final(self).selection() == old(self).selection(),
    {
        self.checkpoints.remove(index);
    }

    /// Gives the selected checkpoint a name.
    pub fn rename_selected(&mut self, name: String)
        requires
            old(self).wf(),
        ensures
            final(self).wf(),
            final(self).selection() == old(self).selection(),
            final(self).points().len() == old(self).points().len(),
            match old(self).selection() {
                None => final(self).points() == old(self).points(),
                Some(i) => final(self).points() == old(self).points().update(
                    i as int,
                    CheckPoint { name: Some(name), state: old(self).points()[i as int].state },
                ),
            },
    {
        if let Some(i) = self.current {
            let mut c = self.checkpoints.remove(i);
            c.name = Some(name);
            self.checkpoints.insert(i, c);
            assert(self.checkpoints@ =~= old(self).checkpoints@.update(
                i as int,
                CheckPoint { name: Some(name), state: old(self).checkpoints@[i as int].state },
            ));
        }
    }

    /// Applies a user action to the selection and the list; returns the
    /// index of the checkpoint to restore, if the action restores one.
    pub fn handle_event(&mut self, event: CheckPointEvent) -> (restore: Option<usize>)
        requires
            old(self).wf(),
            event_valid(old(self).points().len(), event),
        ensures
            (final(self).points(), final(self).selection(), restore) == checkpoint_step(
                old(self).points(),
                old(self).selection(),
                event,
            ),
    {
        match event {
            CheckPointEvent::Click(i) => {
                self.current = Some(i);
                None
            },
            CheckPointEvent::DoubleClick(i) => {
                self.current = Some(i);
                Some(i)
            },
            CheckPointEvent::Load => self.current,
            CheckPointEvent::Delete => {
                if let Some(i) = self.current {
                    self.delete(i);
                }
                self.current = None;
                None
            },
        }
    }
}

impl<C: Extension> Extension for CheckPoints<C> {
    /// The extension of the stored kind followed by `.cp`.
    fn extension() -> (r: String)
        ensures
            exists|e: String| #[trigger] call_ensures(C::extension, (), e) && r@ == e@ + ".cp"@,
            r@.len() >= 3,
            r@.subrange(r@.len() - 3, r@.len() as int) == ".cp"@,
    {
        let mut r = C::extension();
        let ghost e = r;
        r.append(".cp");
        proof {
            assert(call_ensures(C::extension, (), e));
            reveal_strlit(".cp");
            assert(r@.subrange(r@.len() - 3, r@.len() as int) =~= ".cp"@);
        }
        r
    }
}

impl<S> Default for CheckPoints<S> {
    fn default() -> (r: Self)
        ensures
            r.points().len() == 0,
            r.selection() is None,
    {
        Self::new()
    }
}

/// The panel only offers clicks on checkpoints that exist.
pub open spec fn event_valid(len: nat, event: CheckPointEvent) -> bool {
    match event {
        CheckPointEvent::Click(i) => i < len,
        CheckPointEvent::DoubleClick(i) => i < len,
        _ => true,
    }
}

/// The checkpoints, the selection and the checkpoint to restore after a
/// user action.
pub open spec fn checkpoint_step<S>(
    points: Seq<CheckPoint<S>>,
    selection: Option<usize>,
    event: CheckPointEvent,
) -> (Seq<CheckPoint<S>>, Option<usize>, Option<usize>) {
    match event {
        CheckPointEvent::Click(i) => (points, Some(i), None),
        CheckPointEvent::DoubleClick(i) => (points, Some(i), Some(i)),
        CheckPointEvent::Load => (points, selection, selection),
        CheckPointEvent::Delete => match selection {
            None => (points, None, None),
            Some(i) => (points.remove(i as int), None, None),
        },
    }
}

/// Every action of the panel keeps the selection on a saved checkpoint, and
/// whatever it restores is a saved checkpoint.
pub proof fn checkpoint_events_keep_selection_valid<S>(
    points: Seq<CheckPoint<S>>,
    selection: Option<usize>,
    event: CheckPointEvent,
)
    requires
        selection matches Some(i) ==> i < points.len(),
        event_valid(points.len(), event),
    ensures
        ({
            let (p, sel, restore) = checkpoint_step(points, selection, event);
            &&& sel matches Some(i) ==> i < p.len()
            &&& restore matches Some(i) ==> i < p.len()
        }),
{
}

/// Selecting a checkpoint and then pressing "load" restores that
/// checkpoint, and the list is unchanged.
pub proof fn select_then_load_restores_selected<S>(
    points: Seq<CheckPoint<S>>,
    selection: Option<usize>,
    i: usize,
)
    requires
        i < points.len(),
    ensures
        ({
            let (p1, s1, _) = checkpoint_step(points, selection, CheckPointEvent::Click(i));
            let (p2, s2, r2) = checkpoint_step(p1, s1, CheckPointEvent::Load);
            r2 == Some(i) && p2 == points && s2 == Some(i)
        }),
{
}

/// After "delete" nothing is selected, so "load" restores nothing.
pub proof fn delete_then_load_restores_nothing<S>(
    points: Seq<CheckPoint<S>>,
    selection: Option<usize>,
)
    ensures
        ({
            let (p1, s1, _) = checkpoint_step(points, selection, CheckPointEvent::Delete);
            let (_, _, r2) = checkpoint_step(p1, s1, CheckPointEvent::Load);
            r2 is None
        }),
{
}

} // verus!
