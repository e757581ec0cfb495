//! Client core for a real-time chat platform's dual-transport API: a REST
//! interface for stateless resource operations and a persistent WebSocket
//! gateway for event delivery.
//!
//! The verified core holds the gateway session state machine, the gateway
//! frame codec, the REST response classification and the shared error
//! taxonomy. Transport I/O (HTTP requests, the WebSocket itself, timers)
//! lives outside the library and feeds plain values into these functions.

pub mod client;
pub mod error;
pub mod errors;
pub mod models;
pub mod session;
pub mod codec;
pub mod http;
pub mod json;
pub mod text;

pub use client::Client;
pub use client::ClientBuilder;
pub use error::ClassifiedError;
pub use models::Token;
pub use session::Session;
