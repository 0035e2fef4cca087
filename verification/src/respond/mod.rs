//! Taking messages in: requests and responses, the choice between plain chat and tools, and
//! the status that the user sees.
pub mod route;
pub mod route_laws;
pub mod runtime;
pub mod status;
pub mod status_laws;
pub mod types;
