//! Decision logic around the downstream provisioning call.

pub mod currency;
