//! Code generation: transforms a registry into source code for target languages.
//!
//! - An emitter writes the target-language text of one node of the type model
//!   (a module header, a type definition, a field, a type expression, a doc comment).
//! - A generator writes a complete source file for a registry.
//! - An installer lays out the generated sources and the package manifest.
use vstd::prelude::*;

pub mod common;
pub mod config;
pub mod indent;
pub mod java;
pub mod kotlin;
pub mod module;
pub mod module_order;
pub mod swift;
pub mod swift2;

pub use config::{CodeGeneratorConfig, Encoding, ExternalDefinitions, ExternalPackage, ExternalPackages, Feature, PackageLocation};

use crate::generation::indent::{IndentedWriter, WriterState};
use crate::reflection::format::{ContainerFormat, ContainerFormatV, QualifiedTypeName, QualifiedTypeNameV, Registry};

verus! {

/// Writes the target-language text of one node of the type model.
/// `L` is the language tag, which may carry settings such as the encoding.
pub trait Emitter<L> {
    /// The writer after emitting this node into `w`.
    spec fn emitted(&self, w: WriterState, lang: L) -> WriterState;

    fn write(&self, w: &mut IndentedWriter, lang: L)
        ensures
            final(w)@ == self.emitted(old(w)@, lang),
    ;
}

/// Transforms a registry into a complete source file. Each target language provides its
/// own implementation.
pub trait CodeGen<'a>: Sized {
    /// Whether the generator can handle every type definition of the registry.
    spec fn supports(&self, registry: Seq<(QualifiedTypeNameV, ContainerFormatV)>) -> bool;

    /// The source file generated for the registry.
    spec fn generated(&self, registry: Seq<(QualifiedTypeNameV, ContainerFormatV)>) -> Seq<char>;

    /// The configuration that the generator was made with.
    spec fn configuration(&self) -> CodeGeneratorConfig;

    /// A generator for `config`.
    fn new(config: &'a CodeGeneratorConfig) -> (g: Self)
        ensures
            g.configuration() == *config,
    ;

    /// The source file for `registry`.
    fn write_output(&mut self, registry: &Registry) -> (s: String)
        requires
            old(self).supports(registry@),
        ensures
            s@ == old(self).generated(registry@),
    ;
}

/// A borrowed view of one type definition of a registry.
pub struct Container<'a> {
    pub name: &'a QualifiedTypeName,
    pub format: &'a ContainerFormat,
}

impl<'a> Container<'a> {
    pub fn from(value: (&'a QualifiedTypeName, &'a ContainerFormat)) -> (c: Container<'a>)
        ensures
            c.name == value.0,
            c.format == value.1,
    {
        Container { name: value.0, format: value.1 }
    }
}

} // verus!
