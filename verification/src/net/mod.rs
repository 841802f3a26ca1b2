//! HTTP, WebSocket and EventSource building blocks.

pub mod eventsource;
pub mod http;
pub mod method;
pub mod websocket;
