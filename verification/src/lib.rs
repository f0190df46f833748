//! Reflection model and code generation for Kotlin, Swift and Java type definitions.
pub mod reflection;
pub mod util;
pub mod case;
pub mod generation;
pub mod text_wrap;

pub use reflection::format::Registry;
