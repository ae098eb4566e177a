//! The data that the API exchanges, and the paths that it is exchanged at.
pub mod endpoints;
pub mod message;
pub mod tool;
pub mod wire;
