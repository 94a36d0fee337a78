//! A small interactive-shell core: a quote-aware tokenizer, a command
//! resolver that classifies a token list as a builtin or an external
//! command, and a dispatcher that maps a resolved command to the effect
//! it asks for. All I/O (prompting, printing, changing directory,
//! spawning processes) is left to the caller; this crate only decides.

pub mod commands;
pub mod numbers;
pub mod parser;
pub mod path;
