//! Verified core of an end-to-end encrypted file sharing service.
pub mod text;
pub mod crypto;
pub mod codec;
pub mod types;
pub mod headers;
pub mod storage;
pub mod chunked;
pub mod server;
pub mod cli;
pub mod page;
