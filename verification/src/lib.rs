//! A keyboard-driven SSH client library: host configuration, the terminal
//! screen model, SFTP path and listing logic, and the application state
//! machine that turns keys, mouse clicks and connection events into state
//! changes and effects for the runtime to carry out.

pub mod text;
pub mod terminal;
pub mod config;
pub mod keys;
pub mod cred;
pub mod ssh;
pub mod sftp;
pub mod app;
pub mod view;
