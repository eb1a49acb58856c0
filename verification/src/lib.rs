//! Verified core of a quote-relay bot.
//!
//! The bot watches an externally written quotes database and relays every
//! newly appended record, exactly once, to a delivery channel. This crate
//! holds the change-detection and delivery pipeline: the set of already-seen
//! record ids, the drain algorithm that turns a store snapshot into an
//! ascending batch of genuinely new records, a model of the bounded wake
//! channel that coalesces change signals, the query worker's state machine,
//! the store-backed watcher that runs the drain against the real database,
//! and the parser that splits a submitted quote message into tags and body.
//! The surrounding process (HTTP, chat commands, scheduling, shutdown
//! wiring) is ordinary unverified glue and lives outside this crate.

pub mod command;
pub mod drain;
pub mod laws;
pub mod record;
pub mod seen;
pub mod text;
pub mod wake;
pub mod watcher;
pub mod worker;
