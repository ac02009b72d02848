//! Verified core of a download manager that drives the aria2 engine over
//! JSON-RPC and takes download captures from browser extensions.
pub mod json;
pub mod text;
pub mod framing;
pub mod aria2;
pub mod settings;
pub mod daemon;
pub mod commands;
pub mod urls;
pub mod schedule;
pub mod ipc;
pub mod registration;
pub mod window;
