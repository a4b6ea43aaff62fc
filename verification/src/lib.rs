//! An in-memory text-editing engine.
//!
//! The engine holds a document as addressable lines of characters together
//! with one cursor, and mutates it through a closed set of commands:
//! insertion, deletion, line splitting and joining, cursor movement, and
//! history hooks. Every operation's effect is stated over the model in
//! [`model`] and verified; the engine never panics, repairs an out-of-range
//! cursor lazily, and turns a command it does not support into an explicit
//! outcome instead of a fault.

pub mod editor;
pub mod laws;
pub mod model;

pub use crate::editor::insertion;
pub use crate::editor::Command;
pub use crate::editor::Cursor;
pub use crate::editor::Displacement;
pub use crate::editor::Editor;
pub use crate::editor::Outcome;
