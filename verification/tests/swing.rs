use agent_swing::detector::SyncopationDetector;
use agent_swing::feel::SwingFeel;
use agent_swing::fraction::Fraction;
use agent_swing::groove::GroovePattern;
use agent_swing::scheduler::SwingScheduler;
use agent_swing::clock::SwingClock;
use agent_swing::trit::TritAction;

fn value(f: Fraction) -> f64 {
    f.num as f64 / f.den as f64
}

fn ratio_of(x: u128, y: u128) -> Fraction {
    Fraction { num: x, den: y }
}

#[test]
fn test_swing_feel_default() {
    let feel = SwingFeel::default();
    assert!((value(feel.ratio) - 0.66).abs() < 0.01);
}

#[test]
fn test_swing_feel_variants() {
    assert!((value(SwingFeel::straight().ratio) - 0.50).abs() < 0.01);
    assert!((value(SwingFeel::swing().ratio) - 0.66).abs() < 0.01);
    assert!((value(SwingFeel::hard_swing().ratio) - 0.75).abs() < 0.01);
}

#[test]
fn test_swing_feel_clamp() {
    let feel = SwingFeel::custom(ratio_of(5, 100));
    assert!((value(feel.ratio) - 0.25).abs() < 0.01);
    let feel = SwingFeel::custom(ratio_of(150, 100));
    assert!((value(feel.ratio) - 0.90).abs() < 0.01);
}

#[test]
fn test_trit_action_roundtrip() {
    for t in [-1i8, 0, 1] {
        let action = TritAction::from_trit(t).unwrap();
        assert_eq!(action.to_trit(), t);
    }
    assert!(TritAction::from_trit(2).is_none());
}

#[test]
fn test_trit_action_properties() {
    assert!(TritAction::Push.is_audible());
    assert!(!TritAction::GhostNote.is_audible());
    assert!(!TritAction::PullBack.is_audible());
    assert!(TritAction::GhostNote.is_ghost());
    assert!(!TritAction::Push.is_ghost());
}

#[test]
fn test_groove_pattern_basic() {
    let mut groove = GroovePattern::swing_basic();
    assert_eq!(groove.step(), TritAction::Push);
    assert_eq!(groove.step(), TritAction::GhostNote);
    assert_eq!(groove.step(), TritAction::Push);
    assert_eq!(groove.step(), TritAction::GhostNote);
    // Wraps around
    assert_eq!(groove.step(), TritAction::Push);
}

#[test]
fn test_groove_pattern_peek() {
    let groove = GroovePattern::funk();
    assert_eq!(groove.peek(), TritAction::Push);
}

#[test]
fn test_groove_density() {
    let groove = GroovePattern::swing_basic();
    assert!((value(groove.density()) - 0.5).abs() < 0.01);
}

#[test]
fn test_groove_syncopation() {
    let groove = GroovePattern::jazz_ride();
    let sync = value(groove.syncopation());
    assert!(sync > 0.0, "Jazz ride should have syncopation");
}

#[test]
fn test_groove_reset() {
    let mut groove = GroovePattern::swing_basic();
    groove.step();
    groove.step();
    assert_eq!(groove.position, 2);
    groove.reset();
    assert_eq!(groove.position, 0);
}

#[test]
fn test_swing_scheduler_basic() {
    let mut sched = SwingScheduler::new(120, GroovePattern::swing_basic());
    let (action, offset) = sched.next();
    assert_eq!(action, TritAction::Push);
    assert_eq!(offset, 0);
}

#[test]
fn test_swing_scheduler_ghost_timing() {
    let mut sched = SwingScheduler::new(120, GroovePattern::swing_basic());
    sched.next(); // Push (on-beat)
    let (_, offset) = sched.next(); // Ghost (off-beat, swung)
    assert!(offset > 0, "Ghost notes should be delayed");
}

#[test]
fn test_swing_scheduler_pullback_timing() {
    let mut sched = SwingScheduler::new(120, GroovePattern::funk());
    sched.next(); // Push
    let (_, offset) = sched.next(); // PullBack
    assert!(offset > 0, "Pull-back should have small offset");
}

#[test]
fn test_swing_schedule_timeline() {
    let mut sched = SwingScheduler::new(120, GroovePattern::swing_basic());
    let timeline = sched.schedule(8);
    assert_eq!(timeline.len(), 8);
    // Should have 4 pushes and 4 ghosts
    let pushes = timeline.iter().filter(|(a, _)| *a == TritAction::Push).count();
    assert_eq!(pushes, 4);
}

#[test]
fn test_syncopation_detector() {
    let detector = SyncopationDetector::new(8);
    let straight = vec![TritAction::Push; 8];
    let sync = value(detector.analyze(&straight));
    // 4 weak beats with Push = 4 * 0.5 = 2.0 / 8 = 0.25
    assert!((sync - 0.25).abs() < 0.01);

    // Ghosts on strong beats = high syncopation
    let syncopated = vec![
        TritAction::GhostNote, TritAction::Push,
        TritAction::GhostNote, TritAction::Push,
        TritAction::GhostNote, TritAction::Push,
        TritAction::GhostNote, TritAction::Push,
    ];
    let sync_high = value(detector.analyze(&syncopated));
    // 4 ghosts on strong = 4.0, 4 pushes on weak = 2.0, total 6.0 / 8 = 0.75
    assert!(sync_high > 0.5, "Syncopated pattern should score high, got {sync_high}");
}

#[test]
fn test_in_the_pocket() {
    let detector = SyncopationDetector::new(8);
    // Swing basic pattern should be in the pocket
    let groove_actions: Vec<TritAction> = (0..8)
        .map(|i| TritAction::from_trit(if i % 2 == 0 { 1 } else { 0 }).unwrap())
        .collect();
    assert!(detector.in_the_pocket(&groove_actions));
}

#[test]
fn test_swing_clock() {
    let mut clock = SwingClock::new(120);
    let t1 = clock.tick();
    assert_eq!(clock.current_beat(), 1);
    assert!(t1 > 0);
}

#[test]
fn test_swing_clock_elapsed() {
    let mut clock = SwingClock::new(120);
    clock.tick();
    clock.tick();
    assert!(clock.elapsed() > 0);
    assert_eq!(clock.current_beat(), 2);
}

#[test]
fn test_swing_clock_reset() {
    let mut clock = SwingClock::new(120);
    clock.tick();
    clock.tick();
    clock.reset();
    assert_eq!(clock.current_beat(), 0);
    assert_eq!(clock.elapsed(), 0);
}

#[test]
fn test_groove_patterns_variety() {
    let patterns = [
        GroovePattern::swing_basic(),
        GroovePattern::jazz_ride(),
        GroovePattern::funk(),
        GroovePattern::bossa_nova(),
    ];
    // All patterns should have different densities
    let densities: Vec<f64> = patterns.iter().map(|p| value(p.density())).collect();
    let unique: std::collections::HashSet<u64> =
        densities.iter().map(|d| (d * 1000.0) as u64).collect();
    assert!(unique.len() >= 2, "Patterns should have variety");
}

#[test]
fn test_bossa_nova_length() {
    let groove = GroovePattern::bossa_nova();
    assert_eq!(groove.len(), 8);
}

#[test]
fn debug_pocket() {
    let detector = SyncopationDetector::new(8);
    let groove_actions: Vec<TritAction> = (0..8)
        .map(|i| TritAction::from_trit(if i % 2 == 0 { 1 } else { 0 }).unwrap())
        .collect();
    let sync = detector.analyze(&groove_actions);
    // strong beats all push, weak beats all ghost: no syncopation at all
    assert_eq!(sync, Fraction { num: 0, den: 16 });
    assert_eq!(value(sync), 0.0);
}
