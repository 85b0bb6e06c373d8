//! The undo snapshot that bumps fill and a restore consumes.

use vstd::prelude::*;

verus! {

/// What is needed to undo every bump made since the snapshot was last empty:
/// the state before the first of them.
#[derive(Debug)]
pub struct Saveable<S> {
    saved: Option<S>,
}

/// What a snapshot holds once `before` has been offered to it: what it held
/// already, or `before` where it was empty.
pub open spec fn captured<S>(held: Option<S>, before: S) -> Option<S> {
    match held {
        Some(first) => Some(first),
        None => Some(before),
    }
}

/// The state after a restore from a snapshot: the state held, or `current`
/// where the snapshot was empty.
pub open spec fn restored<S>(held: Option<S>, current: S) -> S {
    match held {
        Some(first) => first,
        None => current,
    }
}

/// What a snapshot holds after a run of bumps: `state` is the state before
/// the first bump, `bumps` the states that the bumps led to, in order.
pub open spec fn captured_all<S>(held: Option<S>, state: S, bumps: Seq<S>) -> Option<S>
    decreases bumps.len(),
{
    if bumps.len() == 0 {
        held
    } else {
        captured_all(captured(held, state), bumps[0], bumps.skip(1))
    }
}

/// A snapshot that holds something keeps it through any run of bumps.
pub proof fn lemma_first_capture_stays<S>(first: S, state: S, bumps: Seq<S>)
    ensures
        captured_all(Some(first), state, bumps) == Some(first),
    decreases bumps.len(),
{
    if bumps.len() > 0 {
        lemma_first_capture_stays(first, bumps[0], bumps.skip(1));
    }
}

/// One restore undoes every bump since the snapshot was empty: after any run
/// of bumps from `state` into an empty snapshot, a restore gives `state` back,
/// whatever state the bumps led to.
pub proof fn lemma_restore_undoes_all<S>(state: S, bumps: Seq<S>)
    ensures
        bumps.len() > 0 ==> captured_all(None, state, bumps) == Some(state),
        restored(
            captured_all(None, state, bumps),
            if bumps.len() > 0 {
                bumps.last()
            } else {
                state
            },
        ) == state,
{
    if bumps.len() > 0 {
        lemma_first_capture_stays(state, bumps[0], bumps.skip(1));
    }
}

impl<S> Saveable<S> {
    /// The state held, if any.
    pub closed spec fn held(&self) -> Option<S> {
        self.saved
    }

    /// A fresh, empty snapshot.
    pub fn new() -> (save: Saveable<S>)
        ensures
            save.held() is None,
    {
        Saveable { saved: None }
    }

    /// Whether the snapshot holds nothing.
    pub fn is_empty(&self) -> (b: bool)
        ensures
            b == (self.held() is None),
    {
        self.saved.is_none()
    }

    /// The state held, if any.
    pub fn peek(&self) -> (s: Option<&S>)
        ensures
            match s {
                Some(state) => self.held() == Some(*state),
                None => self.held() is None,
            },
    {
        self.saved.as_ref()
    }

    /// Offers the state before a bump. An empty snapshot keeps it; one that
    /// holds an earlier state keeps that one.
    pub fn capture(&mut self, before: S)
        ensures
            final(self).held() == captured(old(self).held(), before),
    {
        if self.saved.is_none() {
            self.saved = Some(before);
        }
    }

    /// Hands out the state held and leaves the snapshot empty.
    pub fn take(&mut self) -> (s: Option<S>)
        ensures
            s == old(self).held(),
            final(self).held() is None,
    {
        self.saved.take()
    }

    /// Empties the snapshot.
    pub fn clear(&mut self)
        ensures
            final(self).held() is None,
    {
        self.saved = None;
    }
}

} // verus!
