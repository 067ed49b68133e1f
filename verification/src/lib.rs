//! Verified core of a stateless command-line client for MCP servers and OpenAPI services.

pub mod cli;
pub mod error;
pub mod http;
pub mod mcp;
pub mod openapi;
pub mod output;
pub mod outside;
pub mod pairs;
pub mod text;
