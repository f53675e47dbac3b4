pub mod buffer;
pub mod builder;
pub mod compiler;
pub mod dot;
pub mod envelope;
pub mod expand;
pub mod ops;
pub mod osc;
pub mod synthdef;
