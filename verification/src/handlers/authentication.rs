//! The authentication handlers: credential login and token-based lookup.

pub mod login;
pub mod token;
