pub mod codec;
pub mod integer;
pub mod notes;
pub mod chunk;
