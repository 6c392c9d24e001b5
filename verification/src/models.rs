//! The user-facing record shape of the second route stack.

pub mod user;
