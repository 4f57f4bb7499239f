//! Mirrors messages from source channels into target channels through
//! per-author proxy endpoints, and keeps the copies in step with edits and
//! deletes of the originals.
//!
//! - `routing`: the table from source channel to ordered target channels.
//! - `config`: reading that table from a JSON configuration.
//! - `endpoints`: the proxy-endpoint cache and the steps of `get_or_create`.
//! - `relay`: what is remembered of each relayed message.
//! - `engine`: relaying one message, and planning edits and deletes.

pub mod config;
pub mod endpoints;
pub mod engine;
pub mod relay;
pub mod routing;
