//! Repetition and collection combinators.
pub mod collect;
pub mod heap;
pub mod many;
pub mod repeat;
pub mod std_collections;

pub use collect::Collect;
pub use many::{Many0, Many1};
pub use repeat::{MaxN, Repeat, RepeatUntil};
