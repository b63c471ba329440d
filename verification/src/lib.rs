//! Core of a language server: document-state synchronization coupled to a
//! diagnostic analysis pipeline.
//!
//! The [`store::DocumentStore`] owns the authoritative text of every open
//! document, keyed by identity and guarded by versions.  The
//! [`engine::DiagnosticEngine`] runs a registry of [`rules::Rule`]s over a
//! document snapshot and normalizes the results into positioned findings.
//! The [`controller::SyncController`] consumes lifecycle events (open,
//! change, close), updates the store, triggers analysis on every accepted
//! edit, and returns the action owed to the publisher gateway.  Transport and
//! scheduling stay outside: the controller takes plain event values and hands
//! back plain action values.  The guarantees of the whole - last write wins,
//! stale rejection, idempotent close, deterministic analysis, fault isolation
//! - are stated and proved in [`laws`].

pub mod controller;
pub mod diagnostics;
pub mod engine;
pub mod laws;
pub mod rules;
pub mod store;
pub mod text;
