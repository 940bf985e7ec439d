//! Syncopation detection over an agent's recent actions.
use vstd::prelude::*;
use crate::fraction::Fraction;
use crate::trit::TritAction;

verus! {

/// The weight, in halves, of action `a` at position `i` of a window:
/// a strong (even) position that is not a push weighs two halves (1.0),
/// a weak (odd) position with a push weighs one half (0.5).
pub open spec fn half_weight(i: int, a: TritAction) -> nat {
    if i % 2 == 0 && a != TritAction::Push {
        2
    } else if i % 2 == 1 && a == TritAction::Push {
        1
    } else {
        0
    }
}

/// The syncopation of a window, counted in halves.
pub open spec fn syncopation_halves(w: Seq<TritAction>) -> nat
    decreases w.len(),
{
    if w.len() == 0 {
        0
    } else {
        syncopation_halves(w.drop_last()) + half_weight(w.len() - 1, w.last())
    }
}

/// The last `window` actions of `actions`.
pub open spec fn last_window(actions: Seq<TritAction>, window: nat) -> Seq<TritAction> {
    actions.subrange(actions.len() - window, actions.len() as int)
}

/// The syncopation score of `actions` over a window: the syncopation of the
/// last `window` actions over `window`, or zero when there are fewer actions
/// than the window.
pub open spec fn analysis_of(actions: Seq<TritAction>, window: nat) -> Fraction {
    if actions.len() < window {
        Fraction::zero()
    } else {
        Fraction::of(
            syncopation_halves(last_window(actions, window)) as int,
            2 * window as int,
        )
    }
}

/// Some weak (odd) position of the last `window` actions holds `target`.
pub open spec fn weak_beat_holds(actions: Seq<TritAction>, window: nat, target: TritAction) -> bool {
    &&& actions.len() >= window
    &&& exists|i: int|
        0 <= i < window && i % 2 == 1 && #[trigger] last_window(actions, window)[i] == target
}

/// Some weak (odd) position of the last `window` actions holds a push.
pub open spec fn weak_beat_push(actions: Seq<TritAction>, window: nat) -> bool {
    weak_beat_holds(actions, window, TritAction::Push)
}

/// The action the swing-basic figure has at position `i` of a window:
/// a push on strong (even) positions, a ghost note on weak (odd) ones.
pub open spec fn swing_basic_at(i: int) -> TritAction {
    if i % 2 == 0 {
        TritAction::Push
    } else {
        TritAction::GhostNote
    }
}

/// The last `window` actions are the swing-basic figure: push, ghost note,
/// push, ghost note, and so on.
pub open spec fn swing_basic_window(actions: Seq<TritAction>, window: nat) -> bool {
    &&& actions.len() >= window
    &&& forall|i: int|
        0 <= i < window ==> #[trigger] last_window(actions, window)[i] == swing_basic_at(i)
}

/// The last `window` actions are "in the pocket": swung, but not too much.
/// That is a syncopation score `h / (2 * window)` (`h` in halves) between
/// 1/10 and 1/2 inclusive; the swing-basic figure (push on every strong
/// position, ghost note on every weak one), which scores zero, is in the
/// pocket as well. Fewer actions than the window score zero.
pub open spec fn pocket_of(actions: Seq<TritAction>, window: nat) -> bool {
    ||| {
        let h = syncopation_halves(last_window(actions, window));
        &&& actions.len() >= window
        &&& 10 * h >= 2 * window
        &&& 2 * h <= 2 * window
    }
    ||| swing_basic_window(actions, window)
}

pub proof fn lemma_halves_bound(w: Seq<TritAction>)
    ensures
        syncopation_halves(w) <= 2 * w.len(),
    decreases w.len(),
{
    if w.len() > 0 {
        lemma_halves_bound(w.drop_last());
    }
}

/// Detects syncopation in an agent's action sequence.
pub struct SyncopationDetector {
    /// Window size for analysis.
    window: usize,
}

impl SyncopationDetector {
    #[verifier::type_invariant]
    spec fn window_is_four_or_more(&self) -> bool {
        self.window >= 4
    }

    /// The window size.
    pub closed spec fn window_size(&self) -> nat {
        self.window as nat
    }

    /// A detector over the last `window` actions; windows under four are
    /// raised to four.
    pub fn new(window: usize) -> (r: Self)
        ensures
            r.window_size() == if window < 4 { 4 } else { window },
    {
        let w: usize = if window < 4 { 4 } else { window };
        SyncopationDetector { window: w }
    }

    /// The syncopation score of the last `window` actions: strong (even)
    /// positions without a push count 1, weak (odd) positions with a push
    /// count 1/2, and the total is divided by the window; zero when there
    /// are fewer actions than the window.
    pub fn analyze(&self, actions: &[TritAction]) -> (r: Fraction)
        ensures
            r == analysis_of(actions@, self.window_size()),
            actions@.len() < self.window_size() ==> r.num == 0 && r.den == 1,
            actions@.len() >= self.window_size() ==> r.num == syncopation_halves(
                last_window(actions@, self.window_size()),
            ) && r.den == 2 * self.window_size(),
            r.wf(),
            r.num <= r.den,
    {
        proof {
            use_type_invariant(self);
        }
        let n = actions.len();
        let w = self.window;
        if n < w {
            return Fraction { num: 0, den: 1 };
        }
        let start = n - w;
        let ghost win = last_window(actions@, w as nat);
        let mut halves: u128 = 0;
        let mut i: usize = 0;
        while i < w
            invariant
                n == actions@.len(),
                start == n - w,
                w <= n,
                i <= w,
                win == last_window(actions@, w as nat),
                halves == syncopation_halves(win.take(i as int)),
                halves <= 2 * i,
            decreases w - i,
        {
            assert(win.take(i + 1).drop_last() =~= win.take(i as int));
            assert(win[i as int] == actions@[start + i]);
            let a = actions[start + i];
            if i % 2 == 0 {
                if a != TritAction::Push {
                    halves = halves + 2;
                }
            } else {
                if a == TritAction::Push {
                    halves = halves + 1;
                }
            }
            i = i + 1;
        }
        assert(win.take(w as int) =~= win);
        Fraction { num: halves, den: 2 * (w as u128) }
    }

    /// Whether some weak (odd) position of the last `window` actions holds
    /// `target`; false when there are fewer actions than the window.
    fn weak_beat_holds_in(&self, actions: &[TritAction], target: TritAction) -> (r: bool)
        ensures
            r == weak_beat_holds(actions@, self.window_size(), target),
    {
        let n = actions.len();
        let w = self.window;
        if n < w {
            return false;
        }
        let start = n - w;
        let ghost win = last_window(actions@, w as nat);
        let mut i: usize = 0;
        while i < w
            invariant
                n == actions@.len(),
                start == n - w,
                w <= n,
                i <= w,
                win == last_window(actions@, w as nat),
                w == self.window,
                forall|j: int| 0 <= j < i && j % 2 == 1 ==> win[j] != target,
            decreases w - i,
        {
            assert(win[i as int] == actions@[start + i]);
            if i % 2 == 1 && actions[start + i] == target {
                assert(last_window(actions@, w as nat)[i as int] == target);
                return true;
            }
            i = i + 1;
        }
        false
    }

    /// Whether some weak (odd) position of the last `window` actions is a
    /// push; false when there are fewer actions than the window.
    pub fn has_weak_beat_activity(&self, actions: &[TritAction]) -> (r: bool)
        ensures
            r == weak_beat_push(actions@, self.window_size()),
    {
        self.weak_beat_holds_in(actions, TritAction::Push)
    }

    /// Whether the last `window` actions are the swing-basic figure;
    /// false when there are fewer actions than the window.
    fn is_swing_basic_window(&self, actions: &[TritAction]) -> (r: bool)
        ensures
            r == swing_basic_window(actions@, self.window_size()),
    {
        let n = actions.len();
        let w = self.window;
        if n < w {
            return false;
        }
        let start = n - w;
        let ghost win = last_window(actions@, w as nat);
        let mut i: usize = 0;
        while i < w
            invariant
                n == actions@.len(),
                start == n - w,
                w <= n,
                i <= w,
                win == last_window(actions@, w as nat),
                w == self.window,
                forall|j: int| 0 <= j < i ==> win[j] == swing_basic_at(j),
            decreases w - i,
        {
            assert(win[i as int] == actions@[start + i]);
            let expected = if i % 2 == 0 {
                TritAction::Push
            } else {
                TritAction::GhostNote
            };
            if actions[start + i] != expected {
                assert(last_window(actions@, w as nat)[i as int] != swing_basic_at(i as int));
                return false;
            }
            i = i + 1;
        }
        true
    }

    /// Whether the sequence is "in the pocket": swung, but not too much,
    /// that is, its syncopation score lies between 1/10 and 1/2 inclusive.
    /// The swing-basic figure (push, ghost note, push, ghost note, ...),
    /// whose score is zero, is in the pocket too. False when there are
    /// fewer actions than the window.
    pub fn in_the_pocket(&self, actions: &[TritAction]) -> (r: bool)
        ensures
            r == pocket_of(actions@, self.window_size()),
    {
        let sync = self.analyze(actions);
        proof {
            lemma_halves_bound(last_window(actions@, self.window_size()));
        }
        if sync.num * 10 >= sync.den && sync.num * 2 <= sync.den {
            return true;
        }
        self.is_swing_basic_window(actions)
    }
}

} // verus!
