//! Verified core of a set of small command-line and service programs:
//! a key-value store and its wire protocol, a pattern matcher, a shell
//! pipeline, a task list, proof-of-work helpers, a rate limiter and more.

pub mod chain;
pub mod files;
pub mod finance;
pub mod kv;
pub mod numeric;
pub mod order;
pub mod pattern;
pub mod ratelimit;
pub mod shell;
pub mod text;
pub mod todo;
pub mod trading;
pub mod waveform;
