//! Interactive PTY terminal sessions for local shells and SSH: the request
//! types, their validation, the session registry with its output buffers,
//! credential scrubbing, audit and approval decisions, and the controller
//! schemas of the terminal RPC surface.

pub mod audit;
pub mod command;
pub mod manager;
pub mod redact;
pub mod schemas;
pub mod session;
pub mod text;
pub mod types;
pub mod validation;
