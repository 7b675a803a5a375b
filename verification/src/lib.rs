//! A deduplicating string-interning library.
//!
//! [`Atom`] is an immutable, reference-counted string value; [`AtomRegistry`]
//! is a shared table that hands out atoms so that equal strings reuse one
//! heap allocation for as long as some atom over it is alive.

pub mod atom;
pub mod registry;
pub mod table;

pub use atom::Atom;
pub use atom::IntoAtom;
pub use atom::WeakAtom;
pub use registry::AtomRegistry;
pub use table::AtomTable;
