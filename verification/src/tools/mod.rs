//! What tools did in a turn: how their results are shown, and what becomes of the model's
//! reply.
pub mod metadata;
pub mod outcome;
pub mod presenters;
pub mod rss_cards;
pub mod search;
pub mod train;
pub mod turn;
pub mod turn_laws;
pub mod weather;
