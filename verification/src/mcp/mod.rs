//! The server side of the Model Context Protocol: newline-delimited JSON-RPC
//! messages come in, and each one leads to a [`server::Turn`].
//!
//! The server is stateless but for the warm-up of the embedding model, which
//! the first tool call waits for.

pub mod answers;
pub mod args;
pub mod definitions;
pub mod errors;
pub mod laws;
pub mod responses;
pub mod server;
pub mod tool_laws;
pub mod work;
pub mod work_laws;
