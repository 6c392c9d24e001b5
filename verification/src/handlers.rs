//! Decision logic of the request handlers: everything each handler returns,
//! as a status code and a body, computed from the storage results the process
//! wiring hands in.

pub mod authentication;
pub mod creation;
pub mod deletion;
pub mod helper;
pub mod responses;
