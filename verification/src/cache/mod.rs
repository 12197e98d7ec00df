pub mod stats;
pub mod store;
