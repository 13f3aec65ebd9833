//! The logic of the command-line subcommands.

pub mod crawl;
pub mod recipe;
pub mod show;
pub mod dump;
pub mod args;
pub mod command;
