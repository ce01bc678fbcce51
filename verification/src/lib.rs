//! Core of a multi-account messaging automation client.
//!
//! The library holds what the client decides and computes; the network,
//! the prompt and the file system belong to the program around it.
//!
//! - `state`: accounts, the registry of live clients, and the resolution of
//!   a command's targets.
//! - `cmds`: the commands of the prompt and their grammar.
//! - `console`: what becomes of each line that the prompt reads.
//! - `batch`: the batch reaction, account after account and message after
//!   message.
//! - `login`: the steps of logging in a new account.
//! - `loader`: loading the persisted sessions at startup.
//! - `startup`: the course of the program, from the configuration to the
//!   prompt.
//! - `paths`: where the persistent state is kept.
//! - `text`: characters, and integers in decimal notation.

pub mod batch;
pub mod cmds;
pub mod console;
pub mod loader;
pub mod login;
pub mod paths;
pub mod startup;
pub mod state;
pub mod text;
