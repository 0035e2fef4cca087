//! Tasks: drafts and their edits, what a conversation remembers of the last change, cards,
//! and reminders.
pub mod cards;
pub mod edit_patch;
pub mod ops;
pub mod reminder_task;
pub mod task_laws;
pub mod types;
