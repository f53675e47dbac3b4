//! Scores of server commands for rendering without real time.
pub mod bundle;
pub mod render;
pub mod score;

pub use render::Render;
