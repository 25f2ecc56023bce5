//! Builds the program name and ordered argument list of an external command
//! from a terminal-like sequence of tokens, and reads back what the command
//! printed and how it ended.

pub mod args;
pub mod command;
pub mod environment;
pub mod grammar;
pub mod ok;
pub mod opt_arg;
pub mod output;
