//! The mail orchestrator's decisions: its settings, what it reads from a
//! delivered message, router commands and what answering one takes,
//! notification text, and scheduled sends.
pub mod config;
pub mod parser;
pub mod router;
pub mod notify;
pub mod schedule;
pub mod renderer;
