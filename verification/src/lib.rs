//! Verified core of a virtual file server: read-strategy selection, chunked
//! buffering, payload collections and their index accessors, protocol
//! negotiation and malware pattern scoring.

pub mod commun_utils;
pub mod third_party;
pub mod text;
pub mod snapshot;
pub mod fs_handler;
pub mod virtual_fs;
