//! Cumulative selection on text: a breeder copies a parent string many times
//! with random per-symbol mutations, scores every copy against a target
//! phrase and keeps the best one as the parent of the next generation.

pub mod alphabet;
pub mod breeder;
pub mod fitness;
pub mod percentage;
pub mod random;
pub mod text;

pub use breeder::{Breeder, BreedingError, BreedingIterator};
pub use fitness::{fitness_always_1, fitness_comparison};
pub use percentage::{Percentage, PercentageError};
