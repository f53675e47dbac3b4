pub mod bundle;
pub mod types;
