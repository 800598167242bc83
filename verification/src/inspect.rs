//! What is known of the running kernel: its symbols, what can be traced,
//! its configuration and its modules.

pub mod kernel;
pub mod parse;
pub mod symbols;
