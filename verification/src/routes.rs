//! Decision logic of the second route stack, which works on the `User` record
//! shape and reports server faults distinctly.

pub mod deletion;
pub mod login;
pub mod registration;
pub mod responses;
