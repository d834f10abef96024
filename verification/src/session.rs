pub mod manager;
pub mod model;
