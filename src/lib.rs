//! Decoding of a spinning-LiDAR packet stream into revolution-bounded frames.
pub mod assembler;
pub mod decode;
pub mod link;
pub mod session;
