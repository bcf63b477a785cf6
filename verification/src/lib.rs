//! Remote control for a media-playback engine.
//!
//! A listener takes one resource locator per network connection and a control
//! loop feeds each locator to the playback engine while it keeps observing the
//! engine's events. This crate holds the rules of both sides; sockets, threads
//! and the engine itself belong to the program that drives it.

pub mod channel;
pub mod control;
pub mod engine;
pub mod ingest;
pub mod pipeline;
pub mod probe;
