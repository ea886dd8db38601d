//! Values that point into memory: typed addresses and sequences.
pub mod array;
pub mod ptr;

pub use array::{Array, SizedArray};
pub use ptr::Ptr64;
