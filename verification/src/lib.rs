//! Host-activity tracker library: incremental polling of local activity
//! sources (a browser's visit-history database and a shell's append-only
//! command log), delta extraction against a per-source watermark,
//! normalization into generic documents, and framing of bulk-write requests
//! for a remote document store.
//!
//! All file, database and network access lives outside this crate; the
//! library holds the verified logic: parsers, watermark bookkeeping,
//! normalization and request framing.

pub mod browser;
pub mod cli;
pub mod console;
pub mod document;
pub mod elastic;
pub mod runner;
pub mod text;
pub mod utils;
