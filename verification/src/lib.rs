//! A dice-notation library: parse a compact roll expression such as `"3d6+2"`
//! into a structured request, execute the rolls against a uniform random
//! source, and render the outcome as a one-line human-readable summary.

pub mod command;
pub mod dice;
pub mod logger;

pub use dice::Die;
pub use dice::Error;
pub use dice::ErrorKind;
pub use dice::Roll;
pub use dice::RollResult;
