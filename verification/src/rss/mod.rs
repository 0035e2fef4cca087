//! Feed subscriptions: checking them in turn, sending what is new, and managing them on
//! request.
pub mod arguments;
pub mod items;
pub mod plain_scheduler;
pub mod push_laws;
pub mod report_laws;
pub mod scheduler;
pub mod tool;
