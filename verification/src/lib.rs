//! Request dispatch for an HTTP server: target parsing, the chain of context
//! filters, endpoint resolution and the per-connection state machine.

pub mod absolute;
pub mod bytes;
pub mod context;
pub mod filter;
pub mod handler;
pub mod header;
pub mod instance;
pub mod params;
pub mod percent;
pub mod router;
pub mod status;
pub mod storage;
pub mod threads;
pub mod uri;
