pub mod events;
pub mod middleware;
