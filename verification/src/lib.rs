//! Typed, offset-defined views over byte-addressable memory sources.
//!
//! A structure is declared by its size and its fields' offsets; it can then be
//! decoded from any memory source, either where it lies, through a
//! [`Reference`], or from an owned snapshot of its bytes, a [`copy::Copy`].
pub mod builtins;
pub mod compound;
pub mod copy;
pub mod encoding;
pub mod error;
pub mod integers;
pub mod memory;
pub mod reference;
pub mod view;

pub use copy::CopyMemory;
pub use error::{AccessError, AccessMode, MemoryDecodeError, OutOfBoundsViolation};
pub use memory::{CopyConstructable, FromMemoryView, MemoryView, MemoryViewDereferenceable};
pub use reference::Reference;
pub use view::{TypedViewableField, Viewable, ViewableExtends, ViewableField, ViewableSized};
