//! A bridge between TCP clients that exchange length-prefixed JSON and one
//! WebSocket client that exchanges JSON text messages.

pub mod ambient;
pub mod channel;
pub mod clients;
pub mod dispatch;
pub mod frame;
pub mod json;
pub mod laws;
pub mod message;
pub mod promises;
pub mod runs;
pub mod serde_bridge;
pub mod session;
pub mod terminal;
pub mod text;
pub mod websocket;
