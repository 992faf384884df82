pub mod builtin;
pub mod client;
pub mod manager;
pub mod sse_transport;
pub mod tools;
