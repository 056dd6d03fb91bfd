//! The local half of an offline-first synchronisation engine.
//!
//! Edits made while disconnected are buffered in an ordered queue, handed to a
//! remote authority one by one when a flush runs, and kept for a later attempt
//! when the remote side reports a conflict or a failure.
//!
//! - [`electric_sync`] holds the engine: the queue, the flush, conflict
//!   resolution and statistics.
//! - [`queue_model`] holds the mathematical model over which the engine's
//!   contracts are stated.
//! - [`laws`] holds what is proved of every flush.
//! - [`commands`], [`ollama_manager`] and [`tray`] hold what the desktop shell
//!   around the engine decides about the working tree, the local model service
//!   and its own tray icon.
//!
//! Nothing here reads or writes a file, a socket or a clock: the caller does,
//! and hands over what it found.

pub mod commands;
pub mod electric_sync;
pub mod laws;
pub mod ollama_manager;
pub mod queue_model;
pub mod text;
pub mod tray;
