pub mod context_optimizer;
pub mod memory_injection;
