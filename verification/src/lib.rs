//! Clipboard-history core: the data model of recorded clips, the text and
//! number codecs used to store settings, the decisions of the clipboard
//! watcher and of the storage sweeps, and the values the command layer hands
//! to the database and to the system clipboard.

pub mod models;
pub mod text;
pub mod settings;
pub mod fingerprint;
pub mod commands;
pub mod store;
pub mod monitor;
pub mod cleanup;
