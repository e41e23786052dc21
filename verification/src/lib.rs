//! Correction of mistyped shell commands: the text processing behind it.

pub mod cerebras;
pub mod diff;
pub mod history;
pub mod local;
pub mod provider;
pub mod shell;
pub mod text;
