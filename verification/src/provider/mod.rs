pub mod anthropic;
pub mod anthropic_stream;
pub mod base;
pub mod openai_compat;
pub mod openai_stream;
pub mod presets;
pub mod router;
pub mod sampling;
pub mod sse;
pub mod tag_split;
