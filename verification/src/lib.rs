//! Decision core of the DeepSeek Harness desktop shell.
//!
//! The shell starts DSH, waits for its service, captures the address with the login token that DSH
//! prints, and shows it in a window. What it decides on the way is here; what it does (processes,
//! files, requests, windows) is left to the program around this library, which carries out the
//! steps that it is handed and reports what they brought.

pub mod auth;
pub mod command;
pub mod config;
pub mod log;
pub mod output;
pub mod page;
pub mod paths;
pub mod platform;
pub mod pnpm;
pub mod port;
pub mod startup;
pub mod text;
pub mod token;
pub mod tray;
