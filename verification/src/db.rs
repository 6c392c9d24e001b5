//! Database-facing data model. The queries themselves are plain I/O and live
//! with the process wiring; the record shapes and their well-formedness rules
//! are here.

pub mod models;
