//! Verified core of a chat auto-reply bot.
//!
//! The bot watches channel messages on a line-based chat protocol,
//! recognizes administrator commands that add or remove auto-reply rules,
//! keeps the rule table consistent with an in-memory snapshot cache, and
//! fans the current rule set out to live dashboard subscribers.
//!
//! This crate holds the logic of that pipeline — line decoding, command
//! parsing, table and cache semantics, broadcast fan-out, and reply
//! formatting — with machine-checked contracts.  The blocking edges
//! (socket reads and writes, durable storage, configuration files) live in
//! the unverified shell that drives this library.

pub mod cache;
pub mod config;
pub mod dispatch;
pub mod irc;
pub mod json;
pub mod models;
pub mod registry;
pub mod store;
pub mod text;
