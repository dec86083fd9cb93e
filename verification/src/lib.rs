//! A library for a file-based kanban board: each task lives in one markdown
//! document with a fixed schema, and the working directory is reconciled with
//! a remote branch by a linear git workflow.
//!
//! The two load-bearing pieces are the codec in [`codec`] (task record to
//! document text and back) and the sync state machine in [`sync`] (which
//! command to run next, and what each command's outcome means).

pub mod clock;
pub mod codec;
pub mod laws;
pub mod repo;
pub mod sync;
pub mod tasks;
pub mod text;
