//! Verified core of `atc`, a command line for dispatching coding agents.
//!
//! The library holds the rules: text handling, naming, selection, filtering,
//! environment assembly and the decision steps of each command. Reading files,
//! talking to processes and drawing to the terminal is left to the program
//! around it.

pub mod text;
pub mod terminal_text;
pub mod shell_text;
pub mod types;
pub mod strmap;
pub mod json;
pub mod paths;
pub mod dispatch;
pub mod pipeline;
pub mod cli;
pub mod style;
pub mod order;
pub mod tables;
pub mod spans;
pub mod times;
pub mod status;
pub mod sessions;
pub mod health;
pub mod kb;
pub mod resolve;
pub mod close;
pub mod cleanup;
pub mod stop;
pub mod retry;
pub mod post_complete;
pub mod redirect;
pub mod queue;
pub mod enqueue;
pub mod queue_cmd;
pub mod daemon;
pub mod info;
pub mod history;
pub mod pager;
pub mod open_session;
pub mod logs;
pub mod resolvers;
pub mod init;
