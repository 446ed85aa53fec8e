//! The typing-test core: modes, word generation, the engine state machine
//! and the integer tallies behind the result metrics.

pub mod engine;
pub mod metrics;

pub use engine::{Keystroke, Status, TestEngine, Word};
pub use generator::{Modifiers, RandomGenerator, WordGenerator};
pub use mode::Mode;
pub use metrics::{CharCounts, CharRecord, Tally};
