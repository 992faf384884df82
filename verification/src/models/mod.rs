pub mod mcp;
pub mod schedule;
