//! Properties that relate several operations of the library.
use vstd::prelude::*;
use crate::clock::{ClockView, tick_length, ticked};
use crate::detector::{
    analysis_of, half_weight, last_window, lemma_halves_bound, pocket_of, swing_basic_window,
    syncopation_halves, weak_beat_push,
};
use crate::feel::{
    clamp_ratio, groove_factor_of, lemma_scaled_within, max_custom_ratio, min_custom_ratio,
    scaled_ms, swung_time,
};
use crate::fraction::{Fraction, lemma_u64_product_fits};
use crate::groove::{
    GroovePattern, count_off_beats, count_pushes, density_of, lemma_position_advance,
    lemma_wrap_step, syncopation_den, syncopation_num,
};
use crate::scheduler::{beat_ms, offset_ms};
use crate::trit::{TritAction, action_of, is_trit, trit_of};

verus! {

/// Converting an action to its trit and back gives the action again, and
/// every action's trit is a valid trit.
pub proof fn lemma_trit_roundtrip(a: TritAction)
    ensures
        is_trit(trit_of(a)),
        action_of(trit_of(a)) == a,
{
}

/// Converting a valid trit to its action and back gives the trit again.
pub proof fn lemma_action_roundtrip(t: i8)
    requires
        is_trit(t),
    ensures
        trit_of(action_of(t)) == t,
{
}

/// The position reached after `k` calls of `step`, each of which moves
/// one position on and wraps to 0 after the last (`next_position`).
pub open spec fn position_after_steps(g: GroovePattern, k: nat) -> int
    decreases k,
{
    if k == 0 {
        g.position as int
    } else {
        let p = position_after_steps(g, (k - 1) as nat);
        if p + 1 == g.pattern@.len() {
            0
        } else {
            p + 1
        }
    }
}

/// After `k` steps a groove stands at its position plus `k`, wrapped
/// around the pattern length.
pub proof fn lemma_steps_wrap(g: GroovePattern, k: nat)
    requires
        g.wf(),
    ensures
        position_after_steps(g, k) == (g.position + k) % (g.pattern@.len() as int),
    decreases k,
{
    let len = g.pattern@.len() as int;
    if k == 0 {
        vstd::arithmetic::div_mod::lemma_small_mod(g.position as nat, len as nat);
    } else {
        lemma_steps_wrap(g, (k - 1) as nat);
        vstd::arithmetic::div_mod::lemma_mod_bound(g.position + k - 1, len);
        lemma_wrap_step((g.position + k - 1) % len, len);
        lemma_position_advance(g.position as int, k - 1, len);
    }
}

/// A groove is cyclic: stepping through it as many times as it is long
/// brings it back to the position it started from.
pub proof fn lemma_groove_cycle(g: GroovePattern)
    requires
        g.wf(),
    ensures
        position_after_steps(g, g.pattern@.len()) == g.position,
{
    let len = g.pattern@.len() as int;
    lemma_steps_wrap(g, g.pattern@.len());
    vstd::arithmetic::div_mod::lemma_mod_add_multiples_vanish(g.position as int, len);
    vstd::arithmetic::div_mod::lemma_small_mod(g.position as nat, len as nat);
}

/// The actions a groove yields repeat with the pattern's length as period:
/// the action `k` steps on equals the one `k + len` steps on.
pub proof fn lemma_groove_period(g: GroovePattern, k: nat)
    requires
        g.wf(),
    ensures
        g.action_after((k + g.pattern@.len()) as int) == g.action_after(k as int),
{
    let len = g.pattern@.len() as int;
    assert(g.position + (k + len) == len + (g.position + k));
    vstd::arithmetic::div_mod::lemma_mod_add_multiples_vanish(g.position + k, len);
}

/// A schedule repeats with the groove's length as period: entries `i` and
/// `i + len` of a timeline carry the same action and the same offset.
pub proof fn lemma_schedule_period(g: GroovePattern, bpm: u64, ratio: Fraction, i: nat)
    requires
        g.wf(),
    ensures
        offset_ms(g.action_after((i + g.pattern@.len()) as int), beat_ms(bpm), ratio) == offset_ms(
            g.action_after(i as int),
            beat_ms(bpm),
            ratio,
        ),
{
    lemma_groove_period(g, i);
}

/// Every offset stays within its beat: a push lands on the beat, and
/// ghost notes and pull-backs land no later than one beat on.
pub proof fn lemma_offset_within_beat(action: TritAction, base: u64, ratio: Fraction)
    requires
        0 < ratio.den,
        ratio.num <= ratio.den,
    ensures
        offset_ms(action, base, ratio) <= base,
        action == TritAction::Push ==> offset_ms(action, base, ratio) == 0,
{
    lemma_scaled_within(base, ratio);
}

/// The upbeat never lasts longer than the downbeat: an odd beat of the
/// swing clock is at most as long as the even beat before it.
pub proof fn lemma_upbeat_not_longer(bpm: u64, ratio: Fraction, beat: u64)
    requires
        0 < ratio.den,
        ratio.num <= ratio.den,
        beat % 2 == 0,
        beat < u64::MAX,
    ensures
        tick_length(bpm, ratio, (beat + 1) as u64) <= tick_length(bpm, ratio, beat),
        tick_length(bpm, ratio, beat) == beat_ms(bpm),
{
    lemma_scaled_within(beat_ms(bpm), ratio);
}

/// Total length of the first `n` beats of a swing clock.
pub open spec fn elapsed_after(bpm: u64, ratio: Fraction, n: nat) -> int
    decreases n,
{
    if n == 0 {
        0
    } else {
        elapsed_after(bpm, ratio, (n - 1) as nat) + tick_length(bpm, ratio, (n - 1) as u64)
    }
}

/// The state of a clock after `n` ticks from `v`.
pub open spec fn ticks_from(v: ClockView, n: nat) -> ClockView
    decreases n,
{
    if n == 0 {
        v
    } else {
        ticked(ticks_from(v, (n - 1) as nat))
    }
}

/// The elapsed total never shrinks as beats are added.
proof fn lemma_elapsed_monotone(bpm: u64, ratio: Fraction, k: nat, n: nat)
    requires
        k <= n,
    ensures
        elapsed_after(bpm, ratio, k) <= elapsed_after(bpm, ratio, n),
    decreases n - k,
{
    if k < n {
        lemma_elapsed_monotone(bpm, ratio, k, (n - 1) as nat);
    }
}

/// A clock started at beat zero with nothing elapsed (as `new` and `reset`
/// leave it) has, after `n` ticks, counted `n` beats and elapsed exactly the
/// total length of the first `n` beats, as long as that total fits.
pub proof fn lemma_clock_elapsed_after_ticks(v: ClockView, n: nat)
    requires
        v.elapsed_ms == 0,
        v.beat == 0,
        n <= u64::MAX,
        elapsed_after(v.bpm, v.feel.ratio, n) <= u64::MAX,
    ensures
        ticks_from(v, n).elapsed_ms == elapsed_after(v.bpm, v.feel.ratio, n),
        ticks_from(v, n).beat == n,
        ticks_from(v, n).bpm == v.bpm,
        ticks_from(v, n).feel == v.feel,
    decreases n,
{
    if n > 0 {
        lemma_elapsed_monotone(v.bpm, v.feel.ratio, (n - 1) as nat, n);
        lemma_clock_elapsed_after_ticks(v, (n - 1) as nat);
    }
}

/// Every pair of beats (down and up) of a swing clock spans a full beat
/// plus a swung beat, so `2m` beats span `m` such pairs.
pub proof fn lemma_elapsed_pairs(bpm: u64, ratio: Fraction, m: nat)
    requires
        2 * m <= u64::MAX,
    ensures
        elapsed_after(bpm, ratio, 2 * m) == m * (beat_ms(bpm) + scaled_ms(beat_ms(bpm), ratio)),
    decreases m,
{
    if m > 0 {
        lemma_elapsed_pairs(bpm, ratio, (m - 1) as nat);
        let p = beat_ms(bpm) + scaled_ms(beat_ms(bpm), ratio);
        assert(2 * ((m - 1) as nat) == (2 * m - 2) as nat);
        assert(elapsed_after(bpm, ratio, (2 * m - 2) as nat) == (m - 1) * p);
        assert(elapsed_after(bpm, ratio, 2 * m) == elapsed_after(bpm, ratio, (2 * m - 1) as nat)
            + tick_length(bpm, ratio, (2 * m - 1) as u64));
        assert(elapsed_after(bpm, ratio, (2 * m - 1) as nat) == elapsed_after(
            bpm,
            ratio,
            (2 * m - 2) as nat,
        ) + tick_length(bpm, ratio, (2 * m - 2) as u64));
        assert(((2 * m - 2) as u64) % 2 == 0);
        assert(((2 * m - 1) as u64) % 2 == 1);
        assert(tick_length(bpm, ratio, (2 * m - 2) as u64) == beat_ms(bpm));
        assert(tick_length(bpm, ratio, (2 * m - 1) as u64) == scaled_ms(beat_ms(bpm), ratio));
        assert(elapsed_after(bpm, ratio, 2 * m) == (m - 1) * p + p);
        assert(m * p == (m - 1) * p + p) by (nonlinear_arith);
    } else {
        let p = beat_ms(bpm) + scaled_ms(beat_ms(bpm), ratio);
        assert(m * p == 0) by (nonlinear_arith)
            requires
                m == 0,
        ;
    }
}

/// A custom ratio always lands between 25/100 and 90/100, and a ratio
/// already in that range is kept as it is.
pub proof fn lemma_clamp_in_range(ratio: Fraction)
    requires
        0 < ratio.den,
    ensures
        min_custom_ratio().le(clamp_ratio(ratio)),
        clamp_ratio(ratio).le(max_custom_ratio()),
        (min_custom_ratio().le(ratio) && ratio.le(max_custom_ratio())) ==> clamp_ratio(ratio)
            == ratio,
{
}

/// A swung off-beat lands within its beat: from `beat` to `beat + 1`.
pub proof fn lemma_swung_time_within_beat(beat: u64, ratio: Fraction)
    requires
        0 < ratio.den <= u64::MAX,
        ratio.num <= ratio.den,
    ensures
        Fraction::of(beat as int, 1).le(swung_time(beat, ratio)),
        swung_time(beat, ratio).le(Fraction::of(beat + 1, 1)),
{
    let b: int = beat as int;
    let d: int = ratio.den as int;
    let n: int = ratio.num as int;
    lemma_u64_product_fits(b, d);
    assert(b * d + n <= (b + 1) * d) by (nonlinear_arith)
        requires
            n <= d,
    ;
    let lo = Fraction::of(b, 1);
    let hi = Fraction::of(b + 1, 1);
    let st = swung_time(beat, ratio);
    assert(lo.num == b && lo.den == 1);
    assert(hi.num == b + 1 && hi.den == 1);
    assert(st.num == b * d + n && st.den == d);
    assert(lo.num * st.den <= st.num * lo.den) by (nonlinear_arith)
        requires
            lo.num == b,
            lo.den == 1,
            st.num == b * d + n,
            st.den == d,
            n >= 0,
    ;
    assert(st.num * hi.den <= hi.num * st.den) by (nonlinear_arith)
        requires
            hi.num == b + 1,
            hi.den == 1,
            st.num == b * d + n,
            st.den == d,
            b * d + n <= (b + 1) * d,
    ;
}

/// The groove factor is zero exactly for a straight feel, a ratio of 1/2.
pub proof fn lemma_groove_factor_zero_iff_straight(ratio: Fraction)
    requires
        0 < ratio.den <= u64::MAX,
        ratio.num <= ratio.den,
    ensures
        (groove_factor_of(ratio).num == 0) <==> ratio.same_value(Fraction::of(1, 2)),
{
    let half = Fraction::of(1, 2);
    assert(half.num == 1 && half.den == 2);
    let g = groove_factor_of(ratio);
    assert(g.num == 0 <==> 2 * ratio.num == ratio.den);
}

/// The halves counted over a prefix never exceed those of the whole window.
proof fn lemma_halves_prefix(w: Seq<TritAction>, j: int)
    requires
        0 <= j <= w.len(),
    ensures
        syncopation_halves(w.take(j)) <= syncopation_halves(w),
    decreases w.len() - j,
{
    if j < w.len() {
        lemma_halves_prefix(w, j + 1);
        assert(w.take(j + 1).drop_last() =~= w.take(j));
    } else {
        assert(w.take(j) =~= w);
    }
}

/// A window with a push on a weak beat always has a positive syncopation
/// score.
pub proof fn lemma_weak_activity_scores(actions: Seq<TritAction>, window: usize)
    requires
        weak_beat_push(actions, window as nat),
    ensures
        analysis_of(actions, window as nat).num > 0,
{
    let w = last_window(actions, window as nat);
    crate::detector::lemma_halves_bound(w);
    let i = choose|i: int| 0 <= i < window && i % 2 == 1 && #[trigger] w[i] == TritAction::Push;
    lemma_halves_prefix(w, i + 1);
    assert(w.take(i + 1).drop_last() =~= w.take(i));
    assert(half_weight(i, w[i]) == 1);
    assert(syncopation_halves(w.take(i + 1)) >= 1);
}

/// Counting pushes: the empty pattern has none, and appending a step adds
/// one exactly when that step is a push (+1), whatever comes before it.
pub proof fn lemma_push_count_appends(s: Seq<i8>, t: i8)
    ensures
        count_pushes(Seq::<i8>::empty()) == 0,
        count_pushes(s.push(t)) == count_pushes(s) + if t == 1 { 1int } else { 0int },
{
    assert(s.push(t).drop_last() =~= s);
}

/// A pattern made only of pushes has as many pushes as steps, so its
/// density is `len / len`.
pub proof fn lemma_all_pushes_count(s: Seq<i8>)
    requires
        forall|i: int| 0 <= i < s.len() ==> s[i] == 1,
    ensures
        count_pushes(s) == s.len(),
    decreases s.len(),
{
    if s.len() > 0 {
        lemma_all_pushes_count(s.drop_last());
        lemma_push_count_appends(s.drop_last(), s.last());
        assert(s.drop_last().push(s.last()) =~= s);
    }
}

/// Counting syncopated positions: the empty pattern has none, and a step
/// appended at position `p` (the old length) adds one exactly when `p` is
/// even and the step is not a push (a pull-back or a ghost note: a silent
/// strong beat), or `p` is odd and the step is a push (an accented weak
/// beat).
pub proof fn lemma_off_beat_count_appends(s: Seq<i8>, t: i8)
    ensures
        count_off_beats(Seq::<i8>::empty()) == 0,
        count_off_beats(s.push(t)) == count_off_beats(s) + if (s.len() % 2 == 0 && t != 1) || (
        s.len() % 2 == 1 && t == 1) {
            1int
        } else {
            0int
        },
{
    assert(s.push(t).drop_last() =~= s);
}

/// The syncopation index of a pattern of four or more steps counts its
/// syncopated positions over its length; shorter patterns score 0/1.
pub proof fn lemma_syncopation_index_parts(s: Seq<i8>)
    ensures
        s.len() >= 4 ==> syncopation_num(s) == count_off_beats(s) && syncopation_den(s) == s.len(),
        s.len() < 4 ==> syncopation_num(s) == 0 && syncopation_den(s) == 1,
{
}

/// Scoring a window in halves: the empty window scores nothing, and an
/// action appended at position `p` (the old length) adds two halves when
/// `p` is even and the action is not a push (a silent strong beat, at any
/// position), one half when `p` is odd and the action is a push, and
/// nothing otherwise.
pub proof fn lemma_halves_append(w: Seq<TritAction>, a: TritAction)
    ensures
        syncopation_halves(Seq::<TritAction>::empty()) == 0,
        syncopation_halves(w.push(a)) == syncopation_halves(w) + if w.len() % 2 == 0 && a
            != TritAction::Push {
            2int
        } else if w.len() % 2 == 1 && a == TritAction::Push {
            1int
        } else {
            0int
        },
{
    assert(w.push(a).drop_last() =~= w);
}

/// A window of ghost notes only scores two halves for each of its strong
/// (even) positions; for an even window size that is exactly 1/2.
pub proof fn lemma_all_ghost_halves(w: Seq<TritAction>)
    requires
        forall|i: int| 0 <= i < w.len() ==> w[i] == TritAction::GhostNote,
    ensures
        syncopation_halves(w) == 2 * ((w.len() + 1) / 2),
        w.len() % 2 == 0 ==> syncopation_halves(w) == w.len(),
    decreases w.len(),
{
    if w.len() > 0 {
        lemma_all_ghost_halves(w.drop_last());
        lemma_halves_append(w.drop_last(), w.last());
        assert(w.drop_last().push(w.last()) =~= w);
    }
}

/// A detector reports weak-beat activity exactly when there are at least
/// `window` actions and some odd position of the last `window` holds a
/// push, whatever the other positions (the latest action included) hold.
pub proof fn lemma_weak_beat_activity_iff(actions: Seq<TritAction>, window: nat, i: int)
    ensures
        (actions.len() >= window && 0 <= i < window && i % 2 == 1 && actions[actions.len()
            - window + i] == TritAction::Push) ==> weak_beat_push(actions, window),
        weak_beat_push(actions, window) ==> actions.len() >= window && exists|j: int|
            0 <= j < window && j % 2 == 1 && #[trigger] actions[actions.len() - window + j]
                == TritAction::Push,
{
    if actions.len() >= window && 0 <= i < window {
        assert(last_window(actions, window)[i] == actions[actions.len() - window + i]);
    }
    if weak_beat_push(actions, window) {
        let j = choose|j: int|
            0 <= j < window && j % 2 == 1 && #[trigger] last_window(actions, window)[j]
                == TritAction::Push;
        assert(last_window(actions, window)[j] == actions[actions.len() - window + j]);
    }
}

/// The beat length at `bpm` is 60000 / bpm rounded down: a positive tempo
/// fits `bpm` beats of that length in a minute but not `bpm` beats one
/// millisecond longer; a tempo of zero gives a minute-long beat.
pub proof fn lemma_beat_ms_divides_minute(bpm: u64)
    ensures
        bpm > 0 ==> beat_ms(bpm) * bpm <= 60_000 < (beat_ms(bpm) + 1) * bpm,
        bpm == 0 ==> beat_ms(bpm) == 60_000,
{
    if bpm > 0 {
        let q: int = beat_ms(bpm) as int;
        let b: int = bpm as int;
        let minute: int = 60_000int;
        vstd::arithmetic::div_mod::lemma_fundamental_div_mod(minute, b);
        vstd::arithmetic::div_mod::lemma_mod_bound(minute, b);
        assert(q == minute / b);
        assert(q * b <= minute < (q + 1) * b) by (nonlinear_arith)
            requires
                minute == b * q + minute % b,
                0 <= minute % b < b,
        ;
    }
}

/// Offsets within a beat of `base` milliseconds: a push is on the beat
/// (0); a pull-back lands a tenth of the beat off, rounded down, for every
/// beat length; a ghost note lands the ratio of the beat off, rounded down.
pub proof fn lemma_offsets_scale_with_beat(base: u64, ratio: Fraction)
    requires
        0 < ratio.den,
        ratio.num <= ratio.den,
    ensures
        offset_ms(TritAction::Push, base, ratio) == 0,
        10 * offset_ms(TritAction::PullBack, base, ratio) <= base < 10 * (offset_ms(
            TritAction::PullBack,
            base,
            ratio,
        ) + 1),
        offset_ms(TritAction::GhostNote, base, ratio) * ratio.den <= base * ratio.num < (
        offset_ms(TritAction::GhostNote, base, ratio) + 1) * ratio.den,
{
    let o: int = offset_ms(TritAction::GhostNote, base, ratio) as int;
    let m: int = base as int;
    let n: int = ratio.num as int;
    let d: int = ratio.den as int;
    lemma_scaled_within(base, ratio);
    assert(0 <= m * n) by (nonlinear_arith)
        requires
            m >= 0,
            n >= 0,
    ;
    assert(0 <= (m * n) / d <= m) by (nonlinear_arith)
        requires
            m >= 0,
            0 <= n <= d,
            d > 0,
    {
        assert(m * n <= m * d);
        assert((m * n) / d <= (m * d) / d);
        assert((m * d) / d == m);
    }
    assert(o == (m * n) / d);
    vstd::arithmetic::div_mod::lemma_fundamental_div_mod(m * n, d);
    vstd::arithmetic::div_mod::lemma_mod_bound(m * n, d);
    assert(o * d <= m * n < (o + 1) * d) by (nonlinear_arith)
        requires
            m * n == d * o + (m * n) % d,
            0 <= (m * n) % d < d,
    ;
}

/// The trit of an action says what it does: +1 exactly for a push, -1
/// exactly for a pull-back, 0 exactly for a ghost note.
pub proof fn lemma_trit_signs(a: TritAction)
    ensures
        (trit_of(a) == 1) <==> (a == TritAction::Push),
        (trit_of(a) == -1) <==> (a == TritAction::PullBack),
        (trit_of(a) == 0) <==> (a == TritAction::GhostNote),
{
}

/// Density is the share of pushes: 0/1 for the empty pattern, and a
/// pattern of pushes only has density `len / len`, that is 1.
pub proof fn lemma_density_extremes(s: Seq<i8>)
    requires
        s.len() <= usize::MAX,
    ensures
        s.len() == 0 ==> density_of(s).num == 0 && density_of(s).den == 1,
        (s.len() > 0 && forall|i: int| 0 <= i < s.len() ==> s[i] == 1) ==> density_of(s).num
            == s.len() && density_of(s).den == s.len(),
{
    if s.len() > 0 && forall|i: int| 0 <= i < s.len() ==> s[i] == 1 {
        lemma_all_pushes_count(s);
    }
}

/// A window of ghost notes only, of even size, scores exactly 1/2.
pub proof fn lemma_ghost_window_scores_half(actions: Seq<TritAction>, window: usize)
    requires
        actions.len() >= window,
        window % 2 == 0,
        window > 0,
        forall|i: int|
            actions.len() - window <= i < actions.len() ==> actions[i] == TritAction::GhostNote,
    ensures
        2 * analysis_of(actions, window as nat).num == analysis_of(actions, window as nat).den,
{
    let w = last_window(actions, window as nat);
    assert forall|i: int| 0 <= i < w.len() implies w[i] == TritAction::GhostNote by {
        assert(w[i] == actions[actions.len() - window + i]);
    }
    lemma_all_ghost_halves(w);
}

/// A window is in the pocket exactly when its score lies between 1/10 and
/// 1/2 inclusive, or it is the swing-basic figure.
pub proof fn lemma_pocket_is_score_range(actions: Seq<TritAction>, window: usize)
    requires
        window > 0,
    ensures
        pocket_of(actions, window as nat) <==> ((Fraction::of(1, 10).le(
            analysis_of(actions, window as nat),
        ) && analysis_of(actions, window as nat).le(Fraction::of(1, 2))) || swing_basic_window(
            actions,
            window as nat,
        )),
{
    let lo = Fraction::of(1, 10);
    let hi = Fraction::of(1, 2);
    assert(lo.num == 1 && lo.den == 10 && hi.num == 1 && hi.den == 2);
    lemma_halves_bound(last_window(actions, window as nat));
}

/// The swung off-beat lands exactly the ratio after the beat:
/// `swung_time(beat, ratio) - beat == ratio` as rational numbers.
pub proof fn lemma_swung_time_adds_ratio(beat: u64, ratio: Fraction)
    requires
        0 < ratio.den <= u64::MAX,
        ratio.num <= ratio.den,
    ensures
        swung_time(beat, ratio).den == ratio.den,
        (swung_time(beat, ratio).num - beat * swung_time(beat, ratio).den) * ratio.den
            == ratio.num * swung_time(beat, ratio).den,
{
    let b: int = beat as int;
    let d: int = ratio.den as int;
    let n: int = ratio.num as int;
    lemma_u64_product_fits(b, d);
    let st = swung_time(beat, ratio);
    assert(st.num == b * d + n && st.den == d);
    assert((st.num - b * st.den) * d == n * st.den) by (nonlinear_arith)
        requires
            st.num == b * d + n,
            st.den == d,
    ;
}

/// The groove factor is the distance of twice the ratio from one:
/// `|2 * ratio - 1|`, over the ratio's own denominator.
pub proof fn lemma_groove_factor_distance(ratio: Fraction)
    requires
        0 < ratio.den <= u64::MAX,
        ratio.num <= ratio.den,
    ensures
        groove_factor_of(ratio).den == ratio.den,
        groove_factor_of(ratio).num == 2 * ratio.num - ratio.den || groove_factor_of(ratio).num
            == ratio.den - 2 * ratio.num,
        groove_factor_of(ratio).num * groove_factor_of(ratio).num == (2 * ratio.num - ratio.den) * (2
            * ratio.num - ratio.den),
{
    let g = groove_factor_of(ratio);
    let x: int = 2 * ratio.num - ratio.den;
    assert(g.num == x || g.num == -x);
    assert(g.num * g.num == x * x) by (nonlinear_arith)
        requires
            g.num == x || g.num == -x,
    ;
}

} // verus!
