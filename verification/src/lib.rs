//! Verified core of the SeekCLI agent harness.

pub mod text;
pub mod api;
pub mod tokens;
pub mod compressor;
pub mod cost;
pub mod session;
pub mod recovery;
pub mod reminders;
pub mod resilience;
pub mod record;
pub mod trajectory;
pub mod mcp;
pub mod skills;
pub mod assets;
pub mod history;
pub mod memory;
pub mod registry;
pub mod prompt;
pub mod tasks;
pub mod proposals;
pub mod bench;
pub mod config;
pub mod engine;
pub mod run_loop;
pub mod commands;
pub mod completer;
pub mod sse;
pub mod anthropic;
pub mod trace;
pub mod cli;
pub mod workspace;
pub mod layers;
