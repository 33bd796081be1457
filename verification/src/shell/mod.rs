//! A small shell: pipelines of built-in commands, where each stage's
//! output is the next stage's input.

pub mod commands;
pub mod session;
