//! Verified core of a language server for a plain-text task-list format.
//!
//! A document is a sequence of lines; each line is classified as a pending,
//! done, or cancelled task, a project header, or plain text.  The library
//! offers the transformations between those states (stamping and stripping
//! state tags), tag extraction for completion, and an in-memory document
//! store.  Transport and editor wiring live outside the library.

use vstd::prelude::*;

pub mod classify;
pub mod clock;
pub mod completion;
pub mod document;
pub mod laws;
pub mod store;
pub mod tags;
pub mod text;
pub mod transitions;

verus! {

/// The pending-task marker glyph.
pub const PENDING_MARKER: char = '\u{2610}';

/// The done-task marker glyph.
pub const DONE_MARKER: char = '\u{2714}';

/// The cancelled-task marker glyph.
pub const CANCELLED_MARKER: char = '\u{2718}';

} // verus!
