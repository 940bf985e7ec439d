//! A clock that ticks in swing time.
use vstd::prelude::*;
use crate::feel::{SwingFeel, scaled_ms};
use crate::fraction::Fraction;
use crate::scheduler::{beat_ms, ms_for_bpm};

verus! {

/// The length of beat number `beat` at `bpm` under swing `ratio`:
/// even beats take a full beat, odd beats take the beat scaled by the ratio.
pub open spec fn tick_length(bpm: u64, ratio: Fraction, beat: u64) -> u64 {
    if beat % 2 == 0 {
        beat_ms(bpm)
    } else {
        scaled_ms(beat_ms(bpm), ratio)
    }
}

/// The state of a `SwingClock`.
pub struct ClockView {
    pub bpm: u64,
    pub feel: SwingFeel,
    /// Total elapsed time in milliseconds.
    pub elapsed_ms: u64,
    /// Number of beats ticked.
    pub beat: u64,
}

/// The state of a clock after one more tick: the beat's swung length is
/// added to the elapsed time, and the beat count goes up by one.
pub open spec fn ticked(v: ClockView) -> ClockView {
    ClockView {
        bpm: v.bpm,
        feel: v.feel,
        elapsed_ms: (v.elapsed_ms + tick_length(v.bpm, v.feel.ratio, v.beat)) as u64,
        beat: (v.beat + 1) as u64,
    }
}

/// A clock that ticks in swing time.
pub struct SwingClock {
    /// Tempo in beats per minute.
    pub bpm: u64,
    pub feel: SwingFeel,
    elapsed_ms: u64,
    beat: u64,
}

impl View for SwingClock {
    type V = ClockView;

    closed spec fn view(&self) -> ClockView {
        ClockView { bpm: self.bpm, feel: self.feel, elapsed_ms: self.elapsed_ms, beat: self.beat }
    }
}

impl SwingClock {
    /// A clock at `bpm` with the standard swing feel, at beat zero.
    pub fn new(bpm: u64) -> (r: Self)
        ensures
            r@.bpm == bpm,
            r@.feel.ratio == Fraction::of(66, 100),
            r@.feel.wf(),
            r@.elapsed_ms == 0,
            r@.beat == 0,
    {
        SwingClock { bpm, feel: SwingFeel::default(), elapsed_ms: 0, beat: 0 }
    }

    /// Replace the swing feel; the rest of the clock stays as it is.
    pub fn set_feel(&mut self, feel: SwingFeel)
        ensures
            final(self)@.feel == feel,
            final(self)@.bpm == old(self)@.bpm,
            final(self)@.elapsed_ms == old(self)@.elapsed_ms,
            final(self)@.beat == old(self)@.beat,
    {
        self.feel = feel;
    }

    /// Replace the tempo; the rest of the clock stays as it is.
    pub fn set_bpm(&mut self, bpm: u64)
        ensures
            final(self)@.bpm == bpm,
            final(self)@.feel == old(self)@.feel,
            final(self)@.elapsed_ms == old(self)@.elapsed_ms,
            final(self)@.beat == old(self)@.beat,
    {
        self.bpm = bpm;
    }

    /// Advance by one beat and return its swung length: even beats take a
    /// full beat, odd beats the beat scaled by the swing ratio.
    pub fn tick(&mut self) -> (r: u64)
        requires
            old(self)@.feel.wf(),
            old(self)@.beat < u64::MAX,
            old(self)@.elapsed_ms + tick_length(old(self)@.bpm, old(self)@.feel.ratio, old(self)@.beat)
                <= u64::MAX,
        ensures
            r == tick_length(old(self)@.bpm, old(self)@.feel.ratio, old(self)@.beat),
            r <= beat_ms(old(self)@.bpm),
            final(self)@ == ticked(old(self)@),
            final(self)@.elapsed_ms == old(self)@.elapsed_ms + r,
            final(self)@.beat == old(self)@.beat + 1,
            final(self)@.bpm == old(self)@.bpm,
            final(self)@.feel == old(self)@.feel,
    {
        let base = ms_for_bpm(self.bpm);
        let swung: u64 = if self.beat % 2 == 0 {
            base
        } else {
            self.feel.scale_ms(base)
        };
        self.elapsed_ms = self.elapsed_ms + swung;
        self.beat = self.beat + 1;
        swung
    }

    /// The number of beats ticked.
    pub fn current_beat(&self) -> (r: u64)
        ensures
            r == self@.beat,
    {
        self.beat
    }

    /// Total elapsed time in milliseconds.
    pub fn elapsed(&self) -> (r: u64)
        ensures
            r == self@.elapsed_ms,
    {
        self.elapsed_ms
    }

    /// Reset the clock to beat zero with nothing elapsed.
    pub fn reset(&mut self)
        ensures
            final(self)@.elapsed_ms == 0,
            final(self)@.beat == 0,
            final(self)@.bpm == old(self)@.bpm,
            final(self)@.feel == old(self)@.feel,
    {
        self.elapsed_ms = 0;
        self.beat = 0;
    }
}

} // verus!
