//! Connection gatekeeping for a document-synchronization server: per-address
//! reputation with timed bans, protocol sniffing of a shared socket, handshake
//! outcome handling, and the read-only document request path.

pub mod reputation;
pub mod handshake;
pub mod sniff;
pub mod summary;
pub mod gateway;
pub mod acceptor;
