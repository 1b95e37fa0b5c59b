//! Slots numbers into buckets.
//!
//! A [`Bucketizer`] holds ranges of numbers in the order in which they were
//! added, each with a value. [`Bucketizer::bucketize`] gives the value of the
//! first range that holds a number. A range holds its lower bound and not its
//! upper bound.
pub mod bucket;
pub mod bucketizer;
pub mod float;
pub mod laws;
pub mod value;

pub use bucket::Bucket;
pub use bucketizer::Bucketizer;
pub use float::Float;
