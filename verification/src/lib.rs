//! Verified core of a chat assistant: long-term memory, reminders, feed digests,
//! local knowledge retrieval and the routing of user messages to tools.
#![allow(unused_imports)]

pub mod text;
pub mod text_laws;
pub mod memory;
pub mod outside;
pub mod respond;
pub mod labels;
pub mod todo;
pub mod markdown;
pub mod push;
pub mod knowledge;
pub mod json;
pub mod error;
pub mod rss;
pub mod tools;
pub mod ops;
