//! Media relays: how one relay session behaves, and which ports are in use.

pub mod engine;
pub mod session;
