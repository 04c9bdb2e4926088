//! `atc sessions` - keyboard switchboard for dispatch sessions.

pub mod actions;
pub mod app;
pub mod filter;
pub mod screen;
pub mod snapshot;
pub mod view;
