//! Long-term memory: personal notes, member profiles within a group and shared
//! group notes, with the rules of who may read and change which of them.
pub mod boundary_laws;
pub mod consolidation;
pub mod consolidation_laws;
pub mod draft;
pub mod duplicate_laws;
pub mod flow;
pub mod loading;
pub mod message_laws;
pub mod mutations;
pub mod operation_laws;
pub mod operations;
pub mod outcome;
pub mod pending;
pub mod recall;
pub mod recall_laws;
pub mod receipt;
pub mod records;
pub mod run_laws;
pub mod save;
pub mod saving_laws;
pub mod scoped;
pub mod store;
pub mod store_laws;
pub mod types;
pub mod worker;
