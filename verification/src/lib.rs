//! Verified core of a tmux pane monitor: ANSI style tracking, a semantic
//! line parser for trading-bot output, a pane registry with bounded replay
//! buffers, and the decision logic around tmux discovery and trade logs.

pub mod text;
pub mod pattern;
pub mod types;
pub mod config;
pub mod semantic;
pub mod semantic_laws;
pub mod performer;
pub mod registry;
pub mod tmux;
pub mod pipeline;
pub mod trades;
pub mod server;
