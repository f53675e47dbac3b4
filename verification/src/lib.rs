pub mod midi;
pub mod node;
pub mod nrt;
pub mod osc;
pub mod pattern;
pub mod player;
pub mod runtime;
pub mod sc;
pub mod text;
