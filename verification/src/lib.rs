//! Upload ingestion for a small file shelf: a multipart field is stored
//! chunk by chunk under a fresh random name, and the name is handed back
//! to the client as a redirect.
//!
//! The crate holds the decisions only. Reading the request, creating the
//! file and writing to it are left to the caller, who feeds the outcomes
//! back as events.

pub mod ident;
pub mod shelf;
pub mod storage;
pub mod upload;
pub mod writer;
