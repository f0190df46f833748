pub mod format;
pub mod visit;
