//! An authorization gate in front of a request-relaying service: a
//! bearer-credential middleware, two interchangeable verification
//! strategies — a remote reverse lookup and a trust-relationship check —
//! and the endpoint state machine that maintains the relationship state
//! the second strategy depends on.

pub mod auth;
pub mod cli;
pub mod text;
pub mod tsp;
