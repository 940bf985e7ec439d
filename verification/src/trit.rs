//! Trit-valued rhythmic actions.
use vstd::prelude::*;

verus! {

/// A trit-valued action decision: the agent's rhythmic intent.
#[derive(Debug, Clone, Copy, PartialEq, Eq, Structural)]
pub enum TritAction {
    /// Pull back: create space, don't act (trit -1).
    PullBack,
    /// Ghost note: maintain presence without emphasis (trit 0).
    GhostNote,
    /// Push: act with emphasis (trit +1).
    Push,
}

/// The trit that stands for an action.
pub open spec fn trit_of(a: TritAction) -> i8 {
    match a {
        TritAction::PullBack => -1i8,
        TritAction::GhostNote => 0i8,
        TritAction::Push => 1i8,
    }
}

/// A trit is one of -1, 0, +1.
pub open spec fn is_trit(t: i8) -> bool {
    -1 <= t <= 1
}

/// The action that a valid trit stands for.
pub open spec fn action_of(t: i8) -> TritAction {
    if t == -1 {
        TritAction::PullBack
    } else if t == 0 {
        TritAction::GhostNote
    } else {
        TritAction::Push
    }
}

impl TritAction {
    /// The action for a trit, or `None` when `t` is not -1, 0 or +1.
    pub fn from_trit(t: i8) -> (r: Option<TritAction>)
        ensures
            is_trit(t) ==> r == Some(action_of(t)),
            !is_trit(t) ==> r is None,
    {
        match t {
            -1 => Some(TritAction::PullBack),
            0 => Some(TritAction::GhostNote),
            1 => Some(TritAction::Push),
            _ => None,
        }
    }

    /// The trit of this action.
    pub fn to_trit(self) -> (r: i8)
        ensures
            r == trit_of(self),
    {
        match self {
            TritAction::PullBack => -1,
            TritAction::GhostNote => 0,
            TritAction::Push => 1,
        }
    }

    /// Whether this action should produce visible output (only `Push` does).
    pub fn is_audible(&self) -> (r: bool)
        ensures
            r == (*self == TritAction::Push),
    {
        matches!(self, TritAction::Push)
    }

    /// Whether this action maintains groove without acting (only `GhostNote` does).
    pub fn is_ghost(&self) -> (r: bool)
        ensures
            r == (*self == TritAction::GhostNote),
    {
        matches!(self, TritAction::GhostNote)
    }
}

} // verus!
