//! Core of a PBFT consensus engine: message model, node-local state, message
//! log with quorum checks, and the node's event handlers.

pub mod config;
pub mod error;
pub mod message;
pub mod message_log;
pub mod message_type;
pub mod node;
pub mod state;
