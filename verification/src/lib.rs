pub mod config;
pub mod dict;
pub mod error;
pub mod ids;
pub mod json;
pub mod local;
pub mod mcp;
pub mod models;
pub mod network;
pub mod provider;
pub mod pyrepr;
pub mod recipes;
pub mod registry;
pub mod routes;
pub mod scheduler;
pub mod server;
pub mod templates;
pub mod text;
