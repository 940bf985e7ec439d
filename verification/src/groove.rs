//! Repeating rhythmic patterns of trit actions.
use vstd::prelude::*;
use crate::fraction::Fraction;
use crate::trit::{TritAction, is_trit, action_of};

verus! {

/// Every entry of `s` is a trit (-1, 0 or +1).
pub open spec fn all_trits(s: Seq<i8>) -> bool {
    forall|i: int| 0 <= i < s.len() ==> is_trit(#[trigger] s[i])
}

/// Number of pushes (+1 entries) in `s`.
pub open spec fn count_pushes(s: Seq<i8>) -> nat
    decreases s.len(),
{
    if s.len() == 0 {
        0
    } else {
        count_pushes(s.drop_last()) + if s.last() == 1 { 1nat } else { 0nat }
    }
}

/// Position `i` of a pattern is syncopated: a strong (even) position that
/// is not a push, or a weak (odd) position that is a push.
pub open spec fn is_off_beat(i: int, t: i8) -> bool {
    (i % 2 == 0 && t != 1) || (i % 2 == 1 && t == 1)
}

/// Number of syncopated positions in `s` (positions counted from 0).
pub open spec fn count_off_beats(s: Seq<i8>) -> nat
    decreases s.len(),
{
    if s.len() == 0 {
        0
    } else {
        count_off_beats(s.drop_last()) + if is_off_beat(s.len() - 1, s.last()) {
            1nat
        } else {
            0nat
        }
    }
}

/// The density of a pattern: pushes over length, zero for the empty pattern.
pub open spec fn density_of(s: Seq<i8>) -> Fraction {
    if s.len() == 0 {
        Fraction::zero()
    } else {
        Fraction::of(count_pushes(s) as int, s.len() as int)
    }
}

/// Numerator of the syncopation index: the syncopated positions, or zero
/// for patterns shorter than four steps.
pub open spec fn syncopation_num(s: Seq<i8>) -> nat {
    if s.len() < 4 {
        0
    } else {
        count_off_beats(s)
    }
}

/// Denominator of the syncopation index: the length, or one for patterns
/// shorter than four steps.
pub open spec fn syncopation_den(s: Seq<i8>) -> nat {
    if s.len() < 4 {
        1
    } else {
        s.len()
    }
}

/// The syncopation index of a pattern: syncopated positions over length,
/// zero for patterns shorter than four steps.
pub open spec fn syncopation_of(s: Seq<i8>) -> Fraction {
    if s.len() < 4 {
        Fraction::zero()
    } else {
        Fraction::of(count_off_beats(s) as int, s.len() as int)
    }
}

/// Advancing a wrapped position by one more step: the position after
/// `k + 1` steps follows the position after `k` steps.
pub proof fn lemma_position_advance(start: int, k: int, len: int)
    requires
        len > 0,
    ensures
        (((start + k) % len) + 1) % len == (start + k + 1) % len,
{
    vstd::arithmetic::div_mod::lemma_add_mod_noop_right(1, start + k, len);
}

/// Stepping past position `p` of a pattern of length `len`, wrapping to 0
/// after the last position, is adding one modulo `len`.
pub proof fn lemma_wrap_step(p: int, len: int)
    requires
        0 <= p < len,
    ensures
        (if p + 1 == len { 0 } else { p + 1 }) == (p + 1) % len,
{
    if p + 1 == len {
        vstd::arithmetic::div_mod::lemma_mod_self_0(len);
    } else {
        vstd::arithmetic::div_mod::lemma_small_mod((p + 1) as nat, len as nat);
    }
}

/// A repeating rhythmic pattern of trit actions.
#[derive(Debug, Clone)]
pub struct GroovePattern {
    /// Sequence of trit actions (-1, 0, +1).
    pub pattern: Vec<i8>,
    /// Current position in the pattern.
    pub position: usize,
}

impl GroovePattern {
    /// A pattern of trits whose position points into it: what `step` and
    /// `peek` need.
    pub open spec fn wf(&self) -> bool {
        &&& all_trits(self.pattern@)
        &&& self.position < self.pattern@.len()
    }

    /// The action at the current position.
    pub open spec fn current_action(&self) -> TritAction {
        action_of(self.pattern@[self.position as int])
    }

    /// The position that follows the current one, wrapping around to 0
    /// after the last.
    pub open spec fn next_position(&self) -> int {
        if self.position + 1 == self.pattern@.len() {
            0
        } else {
            self.position + 1
        }
    }

    /// The action `k` steps after the current one, wrapping around.
    pub open spec fn action_after(&self, k: int) -> TritAction {
        action_of(self.pattern@[(self.position + k) % (self.pattern@.len() as int)])
    }

    /// A pattern over `pattern`, starting at position 0.
    pub fn new(pattern: Vec<i8>) -> (r: Self)
        requires
            all_trits(pattern@),
        ensures
            r.pattern@ == pattern@,
            r.position == 0,
    {
        GroovePattern { pattern, position: 0 }
    }

    /// Standard swing pattern: push, ghost, push, ghost.
    pub fn swing_basic() -> (r: Self)
        ensures
            r.pattern@ == seq![1i8, 0, 1, 0],
            r.position == 0,
            r.wf(),
    {
        let r = Self::new(vec![1, 0, 1, 0]);
        assert(r.pattern@ =~= seq![1i8, 0, 1, 0]);
        r
    }

    /// Jazz ride pattern: push, ghost, ghost, push.
    pub fn jazz_ride() -> (r: Self)
        ensures
            r.pattern@ == seq![1i8, 0, 0, 1],
            r.position == 0,
            r.wf(),
    {
        let r = Self::new(vec![1, 0, 0, 1]);
        assert(r.pattern@ =~= seq![1i8, 0, 0, 1]);
        r
    }

    /// Funk pattern: push, pull, ghost, push.
    pub fn funk() -> (r: Self)
        ensures
            r.pattern@ == seq![1i8, -1i8, 0i8, 1i8],
            r.position == 0,
            r.wf(),
    {
        let r = Self::new(vec![1, -1, 0, 1]);
        assert(r.pattern@ =~= seq![1i8, -1i8, 0i8, 1i8]);
        r
    }

    /// Bossa nova: push, ghost, push, ghost, ghost, push, ghost, ghost.
    pub fn bossa_nova() -> (r: Self)
        ensures
            r.pattern@ == seq![1i8, 0, 1, 0, 0, 1, 0, 0],
            r.position == 0,
            r.wf(),
    {
        let r = Self::new(vec![1, 0, 1, 0, 0, 1, 0, 0]);
        assert(r.pattern@ =~= seq![1i8, 0, 1, 0, 0, 1, 0, 0]);
        r
    }

    /// Step to the next beat and return the action at the current one.
    pub fn step(&mut self) -> (r: TritAction)
        requires
            old(self).wf(),
        ensures
            r == old(self).current_action(),
            final(self).pattern@ == old(self).pattern@,
            final(self).position == old(self).next_position(),
            final(self).wf(),
    {
        let t = self.pattern[self.position];
        let action = TritAction::from_trit(t).unwrap();
        let n = self.pattern.len();
        if self.position == n - 1 {
            self.position = 0;
        } else {
            self.position = self.position + 1;
        }
        action
    }

    /// The action at the current position, without advancing.
    pub fn peek(&self) -> (r: TritAction)
        requires
            self.wf(),
        ensures
            r == self.current_action(),
    {
        TritAction::from_trit(self.pattern[self.position]).unwrap()
    }

    /// The pattern length.
    pub fn len(&self) -> (r: usize)
        ensures
            r == self.pattern@.len(),
    {
        self.pattern.len()
    }

    /// Whether the pattern has no steps.
    pub fn is_empty(&self) -> (r: bool)
        ensures
            r == (self.pattern@.len() == 0),
    {
        self.pattern.len() == 0
    }

    /// The density: number of pushes over the pattern length
    /// (zero for the empty pattern).
    pub fn density(&self) -> (r: Fraction)
        ensures
            r == density_of(self.pattern@),
            self.pattern@.len() == 0 ==> r.num == 0 && r.den == 1,
            self.pattern@.len() > 0 ==> r.num == count_pushes(self.pattern@) && r.den
                == self.pattern@.len(),
            r.wf(),
            r.num <= r.den <= usize::MAX,
    {
        let n = self.pattern.len();
        if n == 0 {
            return Fraction { num: 0, den: 1 };
        }
        let mut pushes: usize = 0;
        let mut i: usize = 0;
        while i < n
            invariant
                n == self.pattern@.len(),
                i <= n,
                pushes == count_pushes(self.pattern@.take(i as int)),
                pushes <= i,
            decreases n - i,
        {
            assert(self.pattern@.take(i + 1).drop_last() =~= self.pattern@.take(i as int));
            if self.pattern[i] == 1 {
                pushes = pushes + 1;
            }
            i = i + 1;
        }
        assert(self.pattern@.take(n as int) =~= self.pattern@);
        Fraction { num: pushes as u128, den: n as u128 }
    }

    /// The syncopation index: the share of positions that are syncopated
    /// (a strong even position without a push, or a weak odd position with
    /// one); zero for patterns shorter than four steps.
    pub fn syncopation(&self) -> (r: Fraction)
        ensures
            r == syncopation_of(self.pattern@),
            r.num == syncopation_num(self.pattern@),
            r.den == syncopation_den(self.pattern@),
            r.wf(),
            r.num <= r.den <= usize::MAX,
    {
        let n = self.pattern.len();
        if n < 4 {
            return Fraction { num: 0, den: 1 };
        }
        let mut count: usize = 0;
        let mut i: usize = 0;
        while i < n
            invariant
                n == self.pattern@.len(),
                i <= n,
                count == count_off_beats(self.pattern@.take(i as int)),
                count <= i,
            decreases n - i,
        {
            assert(self.pattern@.take(i + 1).drop_last() =~= self.pattern@.take(i as int));
            let t = self.pattern[i];
            if i % 2 == 0 && t != 1 {
                count = count + 1;
            }
            if i % 2 == 1 && t == 1 {
                count = count + 1;
            }
            i = i + 1;
        }
        assert(self.pattern@.take(n as int) =~= self.pattern@);
        Fraction { num: count as u128, den: n as u128 }
    }

    /// Reset to the beginning of the pattern.
    pub fn reset(&mut self)
        ensures
            final(self).pattern@ == old(self).pattern@,
            final(self).position == 0,
    {
        self.position = 0;
    }
}

} // verus!
