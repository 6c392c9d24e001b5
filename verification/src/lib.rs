//! A verified credential-and-token authentication engine for a player account
//! service: salted password digests, signed time-bounded bearer tokens,
//! bearer-header extraction, and the orchestration rules that tie them to an
//! external credential store.

pub mod errors;
pub mod text;
pub mod base64url;
pub mod numeric;
pub mod token_format;
pub mod jwt;
pub mod hashing;
pub mod auth;
pub mod validators;
pub mod db;
pub mod models;
pub mod handlers;
pub mod routes;
pub mod requests;
