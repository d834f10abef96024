pub mod agent;
pub mod callback;
pub mod cli;
pub mod clock;
pub mod gaia;
pub mod json;
pub mod knowledge_base;
pub mod llm;
pub mod memory;
pub mod session;
pub mod text;
pub mod tools;
