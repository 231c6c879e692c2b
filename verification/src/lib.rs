//! Client library for a market-data service: a verified WebSocket
//! subscription session, its wire protocol, and the HTTP gateway's
//! response handling.

pub mod errors;
pub mod http;
pub mod inbound;
pub mod json;
pub mod protocol;
pub mod replay;
pub mod resources;
pub mod session;
pub mod text;

pub use protocol::FeedType;
