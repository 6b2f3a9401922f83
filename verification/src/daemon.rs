//! The HTTP daemon: configuration, sessions, authentication and replies.
pub mod config;
pub mod handlers;
pub mod laws;
pub mod middleware;
pub mod state;
