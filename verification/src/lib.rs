//! A small virtual network stack behind a line-oriented command shell.

pub mod command;
pub mod network;
pub mod shell;
pub mod text;
