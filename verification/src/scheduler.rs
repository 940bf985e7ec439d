//! Scheduling agent execution with swing timing.
use vstd::prelude::*;
use crate::feel::{SwingFeel, scaled_ms, groove_factor_num, groove_factor_of};
use crate::fraction::{Fraction, lemma_u64_product_fits};
use crate::groove::{
    GroovePattern, lemma_position_advance, lemma_wrap_step, syncopation_den, syncopation_num,
    syncopation_of,
};
use crate::trit::TritAction;

verus! {

/// Milliseconds per beat at `bpm` beats per minute; a tempo of zero is
/// taken as one beat per minute.
pub open spec fn beat_ms(bpm: u64) -> u64 {
    if bpm == 0 {
        60_000
    } else {
        60_000u64 / bpm
    }
}

/// The timing offset of an action on a beat of `base` milliseconds:
/// a push lands on the beat, a ghost note is delayed by the swing ratio,
/// a pull-back lands a tenth of a beat off.
pub open spec fn offset_ms(action: TritAction, base: u64, ratio: Fraction) -> u64 {
    match action {
        TritAction::Push => 0,
        TritAction::GhostNote => scaled_ms(base, ratio),
        TritAction::PullBack => (base / 10) as u64,
    }
}

/// Milliseconds per beat at `bpm` beats per minute (zero taken as one).
pub(crate) fn ms_for_bpm(bpm: u64) -> (r: u64)
    ensures
        r == beat_ms(bpm),
        r <= 60_000,
{
    let b: u64 = if bpm < 1 { 1 } else { bpm };
    60_000 / b
}

/// The state of a `SwingScheduler`.
pub struct SchedulerView {
    pub feel: SwingFeel,
    pub groove: GroovePattern,
    pub bpm: u64,
    /// Number of actions scheduled so far.
    pub ticks: u64,
}

/// Schedules agent execution with swing timing.
pub struct SwingScheduler {
    pub feel: SwingFeel,
    pub groove: GroovePattern,
    /// Tempo in beats per minute.
    pub bpm: u64,
    tick: u64,
}

impl View for SwingScheduler {
    type V = SchedulerView;

    closed spec fn view(&self) -> SchedulerView {
        SchedulerView { feel: self.feel, groove: self.groove, bpm: self.bpm, ticks: self.tick }
    }
}

impl SwingScheduler {
    /// A scheduler at `bpm` over `groove`, with the standard swing feel.
    pub fn new(bpm: u64, groove: GroovePattern) -> (r: Self)
        ensures
            r@.bpm == bpm,
            r@.groove == groove,
            r@.feel.ratio == Fraction::of(66, 100),
            r@.feel.wf(),
            r@.ticks == 0,
    {
        SwingScheduler { feel: SwingFeel::default(), groove, bpm, tick: 0 }
    }

    /// Replace the swing feel; the rest of the scheduler stays as it is.
    pub fn set_feel(&mut self, feel: SwingFeel)
        ensures
            final(self)@.feel == feel,
            final(self)@.groove == old(self)@.groove,
            final(self)@.bpm == old(self)@.bpm,
            final(self)@.ticks == old(self)@.ticks,
    {
        self.feel = feel;
    }

    /// Replace the groove pattern; the rest of the scheduler stays as it is.
    pub fn set_groove(&mut self, groove: GroovePattern)
        ensures
            final(self)@.groove == groove,
            final(self)@.feel == old(self)@.feel,
            final(self)@.bpm == old(self)@.bpm,
            final(self)@.ticks == old(self)@.ticks,
    {
        self.groove = groove;
    }

    /// Replace the tempo; the rest of the scheduler stays as it is.
    pub fn set_bpm(&mut self, bpm: u64)
        ensures
            final(self)@.bpm == bpm,
            final(self)@.feel == old(self)@.feel,
            final(self)@.groove == old(self)@.groove,
            final(self)@.ticks == old(self)@.ticks,
    {
        self.bpm = bpm;
    }

    /// Milliseconds per beat: 60000 / bpm, a tempo of zero taken as one.
    pub fn ms_per_beat(&self) -> (r: u64)
        ensures
            r == beat_ms(self@.bpm),
    {
        ms_for_bpm(self.bpm)
    }

    /// Step the groove and return its action with the action's timing offset.
    pub fn next(&mut self) -> (r: (TritAction, u64))
        requires
            old(self)@.feel.wf(),
            old(self)@.groove.wf(),
            old(self)@.ticks < u64::MAX,
        ensures
            r.0 == old(self)@.groove.current_action(),
            r.1 == offset_ms(r.0, beat_ms(old(self)@.bpm), old(self)@.feel.ratio),
            final(self)@.groove.pattern@ == old(self)@.groove.pattern@,
            final(self)@.groove.position == old(self)@.groove.next_position(),
            final(self)@.groove.wf(),
            final(self)@.feel == old(self)@.feel,
            final(self)@.bpm == old(self)@.bpm,
            final(self)@.ticks == old(self)@.ticks + 1,
    {
        let action = self.groove.step();
        let base_ms = self.ms_per_beat();
        let offset: u64 = match action {
            TritAction::Push => 0,
            TritAction::GhostNote => self.feel.scale_ms(base_ms),
            TritAction::PullBack => base_ms / 10,
        };
        self.tick = self.tick + 1;
        (action, offset)
    }

    /// Schedule `steps` actions and return the timeline: entry `i` is the
    /// groove's action `i` steps on, with its offset.
    pub fn schedule(&mut self, steps: usize) -> (r: Vec<(TritAction, u64)>)
        requires
            steps > 0 ==> old(self)@.feel.wf(),
            steps > 0 ==> old(self)@.groove.wf(),
            old(self)@.ticks + steps <= u64::MAX,
        ensures
            r@.len() == steps,
            forall|i: int|
                0 <= i < steps ==> #[trigger] r@[i] == (
                    old(self)@.groove.action_after(i),
                    offset_ms(old(self)@.groove.action_after(i), beat_ms(old(self)@.bpm), old(self)@.feel.ratio),
                ),
            final(self)@.groove.pattern@ == old(self)@.groove.pattern@,
            steps == 0 ==> final(self)@ == old(self)@,
            steps > 0 ==> final(self)@.groove.position == (old(self)@.groove.position + steps) % (
            old(self)@.groove.pattern@.len() as int),
            steps > 0 ==> final(self)@.groove.wf(),
            final(self)@.feel == old(self)@.feel,
            final(self)@.bpm == old(self)@.bpm,
            final(self)@.ticks == old(self)@.ticks + steps,
    {
        if steps == 0 {
            return Vec::new();
        }
        let ghost start = *self;
        let ghost len: int = self.groove.pattern@.len() as int;
        let mut out: Vec<(TritAction, u64)> = Vec::new();
        let mut k: usize = 0;
        proof {
            vstd::arithmetic::div_mod::lemma_small_mod(start.groove.position as nat, len as nat);
        }
        while k < steps
            invariant
                k <= steps,
                len == start.groove.pattern@.len(),
                len > 0,
                self.groove.pattern@ == start.groove.pattern@,
                self.groove.position == (start.groove.position + k) % len,
                self.groove.wf(),
                self.feel == start.feel,
                self.feel.wf(),
                self.bpm == start.bpm,
                self.tick == start.tick + k,
                start.tick + steps <= u64::MAX,
                out@.len() == k,
                forall|i: int|
                    0 <= i < k ==> #[trigger] out@[i] == (
                        start.groove.action_after(i),
                        offset_ms(start.groove.action_after(i), beat_ms(start.bpm), start.feel.ratio),
                    ),
            decreases steps - k,
        {
            proof {
                lemma_position_advance(start.groove.position as int, k as int, len);
                lemma_wrap_step(self.groove.position as int, len);
            }
            let entry = self.next();
            out.push(entry);
            k = k + 1;
        }
        out
    }

    /// The swing amount of the current schedule: the feel's groove factor
    /// times the groove's syncopation index.
    pub fn swing_amount(&self) -> (r: Fraction)
        requires
            self@.feel.wf(),
        ensures
            r == Fraction::of(
                groove_factor_of(self@.feel.ratio).num * syncopation_of(self@.groove.pattern@).num,
                groove_factor_of(self@.feel.ratio).den * syncopation_of(self@.groove.pattern@).den,
            ),
            r.num == groove_factor_num(self@.feel.ratio) * syncopation_num(self@.groove.pattern@),
            r.den == self@.feel.ratio.den * syncopation_den(self@.groove.pattern@),
            r.wf(),
            r.num <= r.den,
    {
        let g = self.feel.groove_factor();
        let s = self.groove.syncopation();
        proof {
            let gn: int = g.num as int;
            let gd: int = g.den as int;
            let sn: int = s.num as int;
            let sd: int = s.den as int;
            assert(gn * sn <= gd * sd) by (nonlinear_arith)
                requires
                    0 <= gn <= gd,
                    0 <= sn <= sd,
            ;
            lemma_u64_product_fits(gd, sd);
            assert(gd * sd > 0) by (nonlinear_arith)
                requires
                    gd > 0,
                    sd > 0,
            ;
        }
        Fraction { num: g.num * s.num, den: g.den * s.den }
    }
}

} // verus!
