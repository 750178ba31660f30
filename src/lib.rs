//! Merges two decoded images into one by interleaving their RGBA pixels,
//! after bringing both to the smaller of their two sizes.
pub mod codec;
pub mod combiner;
pub mod error;
pub mod pipeline;
