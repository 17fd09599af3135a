//! The broadcast chat: the wire format of its messages, the registry of
//! connected users, the server's decisions on each websocket event, the
//! terminal client's rendering and the web client's chat model.

pub mod json;
pub mod protocol;
pub mod clock;
pub mod registry;
pub mod server;
pub mod client;
pub mod webchat;
