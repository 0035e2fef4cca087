//! Operations: the commands that may be run on request, and who may ask for them.
pub mod config;
pub mod config_laws;
pub mod rules;
