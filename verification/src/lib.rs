//! The front end of a code-search tool for coding agents: the JSON-RPC server
//! that answers tool calls, and the renderers that turn search results and
//! dependency graphs into text.
//!
//! Nothing in here reads a file, a clock or a socket. The program around the
//! library performs the work that a [`mcp::server::Turn`] asks for and hands
//! the outcome back as plain values.

pub mod cli;
pub mod graph;
pub mod json;
pub mod mcp;
pub mod render;
pub mod text;
pub mod types;
