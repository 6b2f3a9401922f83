//! The chat bridge: reply cleaning, prompts, configuration and dispatch rules.
pub mod config;
pub mod dispatch;
pub mod harmony;
pub mod prompt;
pub mod setup;
