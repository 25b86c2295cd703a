//! A lazily evaluated flattening adaptor over a sequence of sequences,
//! which can be drained from the front, from the back, or from both ends;
//! a front-only adaptor over an outer sequence without end; and a builder
//! for sequences of a fixed list of elements or of one repeated element.

pub mod builder;
pub mod flatten;
pub mod laws;
pub mod unbounded;

pub use builder::{avec, avec_repeat};
pub use flatten::{custom_flatten, Flatten, IteratorExt};
pub use unbounded::{InnerSource, Ranges, Unbounded};
