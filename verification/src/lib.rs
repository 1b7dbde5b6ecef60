//! Turns an exported conversation archive (a branching graph of message
//! nodes per conversation) into one linear, human-readable document per
//! conversation.
//!
//! The library holds the whole engine: rebuilding a single thread out of the
//! branching graph, rendering each message's tagged content payload, and
//! resolving opaque media pointers against a directory listing of upload
//! folders.  Reading the archive, scanning directories and writing files is
//! left to the surrounding program, which hands this crate plain values.

pub mod text;
pub mod time_fmt;
pub mod assets;
pub mod content;
pub mod graph;
pub mod transcript;

