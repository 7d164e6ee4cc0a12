//! A client for the Language Server Protocol: JSON-RPC messages framed with a
//! `Content-Length` header, and a table of pending requests that routes each
//! response to the callback registered for its id.

pub mod decimal;
pub mod frame;
pub mod json;
pub mod message;
pub mod client;
