//! Session registry and transfer orchestration for a remote file client.
//!
//! The library holds the decisions of the client: which identifiers are
//! live, how a directory listing is arranged, and how a chunked transfer
//! moves from its start to exactly one terminal outcome. The transport and
//! the local file system stay with the caller, who reports what happened
//! and carries out what the library answers.

pub mod commands;
pub mod id_map;
pub mod ident;
pub mod listing;
pub mod manager;
pub mod session;
pub mod shell;
pub mod trace;
pub mod transfer;
pub mod types;
