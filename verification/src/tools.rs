//! Tools of the desktop agent.
pub mod catalog;
pub mod catalog_laws;
pub mod computer;
pub mod computer_laws;
pub mod desktop;
pub mod desktop_laws;
pub mod dispatch;
pub mod memory;
pub mod query_laws;
pub mod retrieval;
pub mod search;
pub mod shell;
pub mod toolset;
pub mod vault;
pub mod vault_laws;
pub mod vision;
