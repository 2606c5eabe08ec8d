//! Verified core of a small VPS bootstrapper: the server configuration model,
//! reverse-proxy config rendering, remote command plans and the text handling
//! they rest on.

pub mod cli;
pub mod commands;
pub mod config;
pub mod error;
pub mod paths;
pub mod plan;
pub mod proxy;
pub mod ssh;
pub mod ui;
pub mod text;
