//! A bridge between a chat transport that speaks JSON-RPC, one document per line, and a small
//! set of text commands.

pub mod bridge;
pub mod commands;
pub mod decimal;
pub mod json;
pub mod models;
pub mod router;
pub mod rpc;
pub mod search;
pub mod size;
pub mod status;
pub mod text;
