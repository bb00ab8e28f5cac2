//! Register and field value model for a 16-bit register map editor.
//!
//! The library keeps each register's read and write shadow values consistent
//! with the fields carved out of them, parses and renders the text the user
//! edits, and enforces that at most one node of the whole tree is selected.

pub mod bits;
pub mod codec;
pub mod field;
pub mod reg16;
pub mod tree;
