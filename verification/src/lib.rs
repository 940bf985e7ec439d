//! Swing rhythm for agent scheduling: off-beat execution for better flow.
//!
//! Timing ratios, densities and syncopation scores are held as exact
//! fractions (`Fraction`), so every quantity the scheduler computes is
//! an integer or a ratio of integers with a precise contract.
pub mod fraction;
pub mod trit;
pub mod groove;
pub mod feel;
pub mod detector;
pub mod scheduler;
pub mod clock;
pub mod laws;

pub use clock::SwingClock;
pub use detector::SyncopationDetector;
pub use feel::SwingFeel;
pub use fraction::Fraction;
pub use groove::GroovePattern;
pub use scheduler::SwingScheduler;
pub use trit::TritAction;
