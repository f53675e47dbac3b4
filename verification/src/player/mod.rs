pub mod timeline;
pub mod tracks;
