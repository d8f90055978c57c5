//! A file explorer's core: directory listings with a sandbox, search by name,
//! file preview state, key bindings and the execution of actions.

pub mod action;
pub mod app;
pub mod config;
pub mod directory;
pub mod highlight;
pub mod laws;
pub mod operations;
pub mod order;
pub mod preview;
pub mod text;
