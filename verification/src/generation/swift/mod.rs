//! Code generation in Swift.
use vstd::prelude::*;

pub mod emitter;
pub mod generator;
pub mod installer;
pub mod package;
pub mod source_emitter;

pub use generator::CodeGenerator;
pub use installer::Installer;
pub use source_emitter::SwiftEmitter;

use crate::util::text::{replace_char, replace_char_with};

verus! {

/// A path fit for a Swift string literal: each backslash becomes a forward slash, so
/// that Swift does not read it as an escape.
pub fn normalize_path(path: &str) -> (r: String)
    ensures
        r@ == replace_char(path@, '\\', "/"@),
{
    replace_char_with(path, '\\', "/")
}

} // verus!
