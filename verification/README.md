# agent_swing

Swing rhythm for agent scheduling, as a verified Verus library.

Agents act on a swung timeline: a groove pattern of trit actions
(push, ghost note, pull-back) is stepped beat by beat, and each action gets a
timing offset from the tempo and the swing feel. A swing clock ticks full
downbeats and swung upbeats, and a syncopation detector scores how far a
sequence of actions leans off the beat.

Swing ratios, densities and syncopation scores are exact fractions
(`Fraction`), so each of them has a precise contract.

Layout:

- `src/fraction.rs`: exact non-negative fractions; `==` compares representations,
  `value_eq` and `value_le` compare values.
- `src/trit.rs`: `TritAction` and its trit encoding.
- `src/groove.rs`: `GroovePattern`: stepping, density, syncopation index.
- `src/feel.rs`: `SwingFeel`: presets, clamped custom ratios, swing time,
  groove factor.
- `src/scheduler.rs`: `SwingScheduler`: offsets and timelines.
- `src/clock.rs`: `SwingClock`: swung beat lengths and elapsed time.
- `src/detector.rs`: `SyncopationDetector`: scores and the pocket.
- `src/laws.rs`: properties that relate several operations.
- `app/lib.rs`: `f64` views of the exact quantities.
- `tests/`: scenario and contract tests.
