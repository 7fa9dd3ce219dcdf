//! Small utilities shared by the engine.

pub mod clock;
pub mod crc64;
pub mod text;
