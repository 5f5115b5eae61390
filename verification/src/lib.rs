//! Verified core of a personal command broker: a server that relays JSON
//! commands from command-line clients to paired mobile devices over live
//! socket sessions, with pairing, re-authentication, a pending-command
//! ledger, and a rate-limited push relay as fallback.

pub mod apns;
pub mod cli;
pub mod config;
pub mod dispatch;
pub mod model;
mod outside;
pub mod protocol;
pub mod ratelimit;
pub mod relay;
pub mod state;
pub mod strutil;
pub mod timefmt;
