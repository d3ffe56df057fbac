//! Text helpers: decimal rendering and duration formatting.

pub mod format;
pub mod fixed;
pub mod text;
