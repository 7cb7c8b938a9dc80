//! An embeddable HTTP server core: route matching, the per-request bridge
//! between a connection and its handler, the connection state machine and
//! the response encoder.

pub mod buffer;
pub mod channel;
pub mod context;
pub mod encoder;
pub mod json;
pub mod method;
pub mod params;
pub mod pattern;
pub mod query;
pub mod request;
pub mod response;
pub mod router;
pub mod server;
pub mod text;
