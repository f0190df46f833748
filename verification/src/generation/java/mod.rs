//! Code generation for Java.
pub mod emitter;
pub mod generator;
pub mod installer;

pub use generator::CodeGenerator;
pub use installer::Installer;
