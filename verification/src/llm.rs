pub mod ask;
pub mod complete;
