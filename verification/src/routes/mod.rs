pub mod chat;
pub mod mcp;
pub mod memory;
pub mod pathway;
pub mod providers;
pub mod recipes;
pub mod reply;
pub mod schedules;
pub mod status;
