//! Verified core of a toolkit for WASM web applications: session history,
//! query strings, HTTP methods, WebSocket and EventSource states, animation
//! frame bookkeeping and formatting options.

pub mod ani_frames;
pub mod events;
pub mod file;
pub mod history;
pub mod intl;
pub mod net;
pub mod text;
