//! Command dispatch for a handful of classical ciphers.

pub mod alphabet;
pub mod ciphers;
pub mod directive;
pub mod error;
pub mod laws;
pub mod logic;
pub mod stdin;
pub mod subcommands;
pub mod utils;
