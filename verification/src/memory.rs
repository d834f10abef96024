pub mod manager;
pub mod prompt;
pub mod task_memory;
