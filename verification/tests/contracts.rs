use agent_swing::clock::SwingClock;
use agent_swing::detector::SyncopationDetector;
use agent_swing::feel::SwingFeel;
use agent_swing::fraction::Fraction;
use agent_swing::groove::GroovePattern;
use agent_swing::scheduler::SwingScheduler;
use agent_swing::trit::TritAction;

fn frac(num: u128, den: u128) -> Fraction {
    Fraction { num, den }
}

use TritAction::{GhostNote, PullBack, Push};

#[test]
fn trit_values_outside_range_are_rejected() {
    assert!(TritAction::from_trit(-2).is_none());
    assert!(TritAction::from_trit(i8::MIN).is_none());
    assert!(TritAction::from_trit(i8::MAX).is_none());
    assert_eq!(TritAction::from_trit(-1), Some(PullBack));
    assert_eq!(TritAction::from_trit(0), Some(GhostNote));
    assert_eq!(TritAction::from_trit(1), Some(Push));
}

#[test]
fn trit_roundtrip_from_action() {
    for a in [PullBack, GhostNote, Push] {
        assert_eq!(TritAction::from_trit(a.to_trit()), Some(a));
    }
    assert!(!PullBack.is_ghost());
}

#[test]
fn groove_cycles_back_after_its_length() {
    let mut groove = GroovePattern::bossa_nova();
    groove.step();
    groove.step();
    groove.step();
    let start = groove.position;
    let first = groove.peek();
    let mut seen = Vec::new();
    for _ in 0..groove.len() {
        seen.push(groove.step());
    }
    assert_eq!(groove.position, start);
    assert_eq!(groove.peek(), first);
    assert_eq!(seen, vec![GhostNote, GhostNote, Push, GhostNote, GhostNote, Push, GhostNote, Push]);
}

#[test]
fn peek_agrees_with_step_and_reset_restarts() {
    let mut groove = GroovePattern::funk();
    for _ in 0..6 {
        let p = groove.peek();
        assert_eq!(groove.step(), p);
    }
    groove.reset();
    assert_eq!(groove.position, 0);
    assert_eq!(groove.peek(), Push);
    assert_eq!(groove.pattern, vec![1, -1, 0, 1]);
}

#[test]
fn groove_new_keeps_pattern_and_empty_pattern() {
    let g = GroovePattern::new(vec![-1, -1, 1]);
    assert_eq!(g.pattern, vec![-1, -1, 1]);
    assert_eq!(g.position, 0);
    assert_eq!(g.len(), 3);
    assert!(!g.is_empty());
    let e = GroovePattern::new(Vec::new());
    assert!(e.is_empty());
    assert_eq!(e.len(), 0);
    assert_eq!(e.density(), frac(0, 1));
    assert_eq!(e.syncopation(), frac(0, 1));
}

#[test]
fn density_exact_values() {
    assert_eq!(GroovePattern::swing_basic().density(), frac(2, 4));
    assert_eq!(GroovePattern::jazz_ride().density(), frac(2, 4));
    assert_eq!(GroovePattern::funk().density(), frac(2, 4));
    assert_eq!(GroovePattern::bossa_nova().density(), frac(3, 8));
    assert_eq!(GroovePattern::new(vec![-1, 0, -1]).density(), frac(0, 3));
}

#[test]
fn syncopation_exact_values() {
    assert_eq!(GroovePattern::swing_basic().syncopation(), frac(0, 4));
    assert_eq!(GroovePattern::jazz_ride().syncopation(), frac(2, 4));
    assert_eq!(GroovePattern::funk().syncopation(), frac(2, 4));
    // bossa nova: positions 4 and 6 are strong ghosts, 5 is a weak push
    assert_eq!(GroovePattern::bossa_nova().syncopation(), frac(3, 8));
    // fewer than four steps: no syncopation index
    assert_eq!(GroovePattern::new(vec![0, 1, 0]).syncopation(), frac(0, 1));
}

#[test]
fn feel_presets_and_clamp_exact() {
    assert_eq!(SwingFeel::straight().ratio, frac(50, 100));
    assert_eq!(SwingFeel::swing().ratio, frac(66, 100));
    assert_eq!(SwingFeel::hard_swing().ratio, frac(75, 100));
    assert_eq!(SwingFeel::default().ratio, frac(66, 100));
    assert_eq!(SwingFeel::custom(frac(1, 10)).ratio, frac(25, 100));
    assert_eq!(SwingFeel::custom(frac(3, 2)).ratio, frac(90, 100));
    // in range: kept as given, bounds included
    assert_eq!(SwingFeel::custom(frac(2, 3)).ratio, frac(2, 3));
    assert_eq!(SwingFeel::custom(frac(1, 4)).ratio, frac(1, 4));
    assert_eq!(SwingFeel::custom(frac(9, 10)).ratio, frac(9, 10));
}

#[test]
fn groove_factor_exact() {
    assert_eq!(SwingFeel::straight().groove_factor(), frac(0, 100));
    assert_eq!(SwingFeel::swing().groove_factor(), frac(32, 100));
    assert_eq!(SwingFeel::hard_swing().groove_factor(), frac(50, 100));
    assert_eq!(SwingFeel::custom(frac(1, 10)).groove_factor(), frac(50, 100));
}

#[test]
fn swing_time_exact() {
    let feel = SwingFeel::swing();
    assert_eq!(feel.swing_time(3, 0), frac(3, 1));
    assert_eq!(feel.swing_time(3, 2), frac(3, 1));
    assert_eq!(feel.swing_time(3, 1), frac(366, 100));
    assert_eq!(feel.swing_time(3, 7), frac(366, 100));
    let big = feel.swing_time(u64::MAX, 1);
    assert_eq!(big, frac(u64::MAX as u128 * 100 + 66, 100));
}

#[test]
fn scheduler_offsets_exact() {
    let mut sched = SwingScheduler::new(120, GroovePattern::funk());
    assert_eq!(sched.ms_per_beat(), 500);
    assert_eq!(sched.next(), (Push, 0));
    assert_eq!(sched.next(), (PullBack, 50));
    assert_eq!(sched.next(), (GhostNote, 330));
    assert_eq!(sched.next(), (Push, 0));
    assert_eq!(sched.groove.position, 0);
}

#[test]
fn scheduler_tempo_zero_is_one_beat_per_minute() {
    let sched = SwingScheduler::new(0, GroovePattern::swing_basic());
    assert_eq!(sched.ms_per_beat(), 60_000);
    let sched = SwingScheduler::new(7, GroovePattern::swing_basic());
    assert_eq!(sched.ms_per_beat(), 8571);
}

#[test]
fn schedule_is_periodic_and_matches_next() {
    let mut a = SwingScheduler::new(90, GroovePattern::jazz_ride());
    a.feel = SwingFeel::hard_swing();
    let timeline = a.schedule(10);
    assert_eq!(timeline.len(), 10);
    for i in 0..6 {
        assert_eq!(timeline[i], timeline[i + 4]);
    }
    let mut b = SwingScheduler::new(90, GroovePattern::jazz_ride());
    b.feel = SwingFeel::hard_swing();
    for entry in &timeline {
        assert_eq!(b.next(), *entry);
    }
    assert_eq!(a.groove.position, b.groove.position);
    assert_eq!(a.groove.position, 2);
    // 666 ms per beat, ghost notes land at 3/4 of it
    assert_eq!(timeline[1], (GhostNote, 499));
    assert_eq!(timeline[0], (Push, 0));
}

#[test]
fn schedule_zero_steps_is_empty() {
    let mut s = SwingScheduler::new(120, GroovePattern::funk());
    assert!(s.schedule(0).is_empty());
    assert_eq!(s.groove.position, 0);
}

#[test]
fn swing_amount_exact() {
    let sched = SwingScheduler::new(120, GroovePattern::jazz_ride());
    assert_eq!(sched.swing_amount(), frac(64, 400));
    let mut straight = SwingScheduler::new(120, GroovePattern::funk());
    straight.feel = SwingFeel::straight();
    assert_eq!(straight.swing_amount(), frac(0, 400));
}

#[test]
fn clock_ticks_alternate_and_sum() {
    let mut clock = SwingClock::new(120);
    assert_eq!(clock.tick(), 500);
    assert_eq!(clock.tick(), 330);
    assert_eq!(clock.tick(), 500);
    assert_eq!(clock.tick(), 330);
    assert_eq!(clock.elapsed(), 2 * (500 + 330));
    assert_eq!(clock.current_beat(), 4);
}

#[test]
fn clock_one_second_beat_per_feel() {
    // a 1000 ms beat: the swung beat takes the ratio of it
    for (feel, swung) in [(SwingFeel::straight(), 500), (SwingFeel::swing(), 660), (SwingFeel::hard_swing(), 750)] {
        let mut clock = SwingClock::new(60);
        clock.feel = feel;
        let down = clock.tick();
        let up = clock.tick();
        assert_eq!(down, 1000);
        assert_eq!(up, swung);
        assert!(up <= down);
    }
}

#[test]
fn clock_reset_keeps_tempo() {
    let mut clock = SwingClock::new(0);
    assert_eq!(clock.tick(), 60_000);
    clock.reset();
    assert_eq!(clock.elapsed(), 0);
    assert_eq!(clock.bpm, 0);
    assert_eq!(clock.tick(), 60_000);
}

#[test]
fn detector_window_is_at_least_four() {
    let d = SyncopationDetector::new(2);
    // a window of four: three actions are too few
    assert_eq!(d.analyze(&[Push, Push, Push]), frac(0, 1));
    assert_eq!(d.analyze(&[GhostNote, Push, GhostNote, Push]), frac(6, 8));
    assert!(!d.has_weak_beat_activity(&[Push, Push, Push]));
}

#[test]
fn detector_uses_last_window_only() {
    let d = SyncopationDetector::new(4);
    let actions = [GhostNote, GhostNote, Push, GhostNote, Push, GhostNote];
    // last four: Push, GhostNote, Push, GhostNote
    assert_eq!(d.analyze(&actions), frac(0, 8));
    assert!(!d.has_weak_beat_activity(&actions));
    assert!(d.in_the_pocket(&actions));
    let with_push = [Push, Push, Push, Push, Push];
    assert!(d.has_weak_beat_activity(&with_push));
    assert_eq!(d.analyze(&with_push), frac(2, 8));
}

#[test]
fn weak_beat_push_gives_positive_score() {
    let d = SyncopationDetector::new(4);
    let actions = [Push, GhostNote, Push, Push];
    assert!(d.has_weak_beat_activity(&actions));
    assert!(d.analyze(&actions).num > 0);
}

#[test]
fn pocket_boundaries() {
    let d = SyncopationDetector::new(8);
    // all pushes: 1/4, in the pocket
    assert!(d.in_the_pocket(&[Push; 8]));
    // ghosts on strong beats, pushes on weak: 3/4, too much
    assert!(!d.in_the_pocket(&[GhostNote, Push, GhostNote, Push, GhostNote, Push, GhostNote, Push]));
    // all ghosts: strong beats silent, 4/8 = 1/2 exactly, in the pocket
    assert!(d.in_the_pocket(&[GhostNote; 8]));
    assert_eq!(d.analyze(&[GhostNote; 8]), frac(8, 16));
    // steady downbeats, pulled-back off-beats: score 0 and no ghost, not swung
    assert!(!d.in_the_pocket(&[Push, PullBack, Push, PullBack, Push, PullBack, Push, PullBack]));
    // too few actions: never in the pocket
    assert!(!d.in_the_pocket(&[Push, GhostNote]));
    // one silent strong beat out of eight positions: 2/16 >= 1/10
    assert!(d.in_the_pocket(&[PullBack, PullBack, Push, PullBack, Push, PullBack, Push, PullBack]));
}

#[test]
fn pocket_needs_score_or_full_swing_basic_figure() {
    let d = SyncopationDetector::new(8);
    // scores 0, weak beats mix ghosts and pull-backs: not the swing-basic figure
    let mixed = [Push, GhostNote, Push, PullBack, Push, PullBack, Push, PullBack];
    assert_eq!(d.analyze(&mixed), frac(0, 16));
    assert!(!d.in_the_pocket(&mixed));
    // the full swing-basic figure is in the pocket
    let basic = [Push, GhostNote, Push, GhostNote, Push, GhostNote, Push, GhostNote];
    assert!(d.in_the_pocket(&basic));
}

#[test]
fn schedule_zero_steps_on_empty_groove() {
    let mut s = SwingScheduler::new(120, GroovePattern::new(Vec::new()));
    assert!(s.schedule(0).is_empty());
    assert!(s.groove.is_empty());
    assert_eq!(s.groove.position, 0);
}

#[test]
fn setters_change_only_their_field() {
    let mut s = SwingScheduler::new(120, GroovePattern::funk());
    s.set_feel(SwingFeel::hard_swing());
    s.set_bpm(60);
    s.set_groove(GroovePattern::jazz_ride());
    assert_eq!(s.feel.ratio, frac(75, 100));
    assert_eq!(s.bpm, 60);
    assert_eq!(s.groove.pattern, vec![1, 0, 0, 1]);
    assert_eq!(s.next(), (Push, 0));
    assert_eq!(s.next(), (GhostNote, 750));

    let mut c = SwingClock::new(120);
    c.tick();
    c.set_feel(SwingFeel::straight());
    c.set_bpm(60);
    assert_eq!(c.current_beat(), 1);
    assert_eq!(c.elapsed(), 500);
    assert_eq!(c.tick(), 500);
    assert_eq!(c.tick(), 1000);
    assert_eq!(c.elapsed(), 2000);
}

#[test]
fn clock_elapsed_is_sum_of_first_ticks() {
    let mut c = SwingClock::new(90);
    c.set_feel(SwingFeel::hard_swing());
    let mut total = 0u64;
    for _ in 0..7 {
        total += c.tick();
    }
    // four downbeats of 666 ms, three upbeats of 499 ms
    assert_eq!(total, 4 * 666 + 3 * 499);
    assert_eq!(c.elapsed(), total);
    assert_eq!(c.current_beat(), 7);
}

#[test]
fn fraction_value_comparison() {
    // representations differ, values agree
    assert_ne!(frac(2, 4), frac(1, 2));
    assert!(frac(2, 4).value_eq(&frac(1, 2)));
    assert!(frac(0, 16).value_eq(&frac(0, 1)));
    assert!(!frac(66, 100).value_eq(&frac(2, 3)));
    assert!(frac(66, 100).value_le(&frac(2, 3)));
    assert!(!frac(2, 3).value_le(&frac(66, 100)));
    assert!(frac(7, 3).value_le(&frac(7, 3)));
    // large values whose cross products exceed 128 bits
    let big = frac(u128::MAX, u128::MAX - 1);
    let one = frac(u128::MAX - 1, u128::MAX - 1);
    assert!(one.value_le(&big));
    assert!(!big.value_le(&one));
    assert!(frac(u128::MAX, u128::MAX).value_eq(&frac(1, 1)));
    // scores compared by value
    let d = SyncopationDetector::new(8);
    assert!(d.analyze(&[Push; 8]).value_eq(&frac(1, 4)));
    assert!(GroovePattern::swing_basic().density().value_eq(&frac(1, 2)));
}
