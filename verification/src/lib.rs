//! An agent runtime: the agent loop with its limits, tools and their policies, the
//! wire formats of model providers, a task engine, a message-bus bridge and an HTTP
//! daemon. The library computes and decides; programs around it talk to the world.
pub mod agent;
pub mod backend_trait;
pub mod bridge;
pub mod builder;
pub mod calendar;
pub mod codegen;
pub mod daemon;
pub mod decimal;
pub mod engine;
pub mod eval;
pub mod ids;
pub mod json;
pub mod mcp;
pub mod message;
pub mod net;
pub mod observer;
pub mod order;
pub mod paths;
pub mod pieces;
pub mod search;
pub mod step;
pub mod step_laws;
pub mod store;
pub mod store_trait;
pub mod table;
pub mod text;
pub mod text_laws;
pub mod tool;
pub mod tools;
pub mod wire;
