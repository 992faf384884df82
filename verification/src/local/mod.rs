pub mod backend;
pub mod embeddings;
pub mod engine;
pub mod generation;
pub mod history;
pub mod manager;
pub mod pathway_embed;
pub mod provider;
pub mod summarizer;
pub mod tools;
