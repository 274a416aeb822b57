//! A minimal terminal text editor core: a multi-line buffer with a movable
//! cursor, an event processor that turns key events into buffer edits, a
//! lexical highlighter that assigns a color tag to every character, and a
//! renderer that turns the buffer, cursor and color tags into a sequence of
//! terminal draw commands.
//!
//! The crate holds only the editing logic; reading key events from a terminal
//! and executing the draw commands are left to the surrounding program.

pub mod editor;
pub mod highlight;
pub mod render;
