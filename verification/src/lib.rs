//! Incremental elaboration engine for a language server.
//!
//! A virtual file store keeps, for every file it knows, the current text and
//! version, a cache slot with the last elaborated result, and the set of
//! files that were elaborated using it. Requests for a file's result are
//! deduplicated through the slot, results are reused while their content hash
//! still matches, and a finished elaboration re-triggers its dependents.
//!
//! The store is a sequential state machine: the caller performs the parsing,
//! the elaboration and all message passing, and reports each event to the
//! store, which answers with what has to happen next. A caller with several
//! tasks keeps the store behind a lock.
//!
//! - [`model`] says what the store holds and how each event changes it,
//!   [`graph`] that every event keeps the import graph consistent, and
//!   [`laws`] what follows across several events.
//! - [`vfs`] is the store itself; [`waiters`] answers waiters over one-shot
//!   channels.
//! - [`text`], [`hash`] and [`files`] hold texts with their edits, content
//!   hashes, and file handles.
//! - [`requests`] is the registry of open requests, and [`server`] holds
//!   what the server decides on a message.
//! - [`elab`] is the elaborator's bookkeeping for the variables of a
//!   declaration.

pub mod util;
pub mod files;
pub mod hash;
pub mod text;
pub mod model;
pub mod graph;
pub mod vfs;
pub mod waiters;
pub mod laws;
pub mod requests;
pub mod server;
pub mod elab;

