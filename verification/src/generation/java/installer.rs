//! Installation of generated Java sources.
use vstd::prelude::*;

use crate::generation::config::{CodeGeneratorConfig, ExternalPackage, ExternalPackages};
use crate::generation::java::emitter::java_config;
use crate::generation::java::generator::{java_files, java_package, sources_view, CodeGenerator, JavaSource};
use crate::generation::kotlin::installer::{collect_packages, packages_by_namespace};
use crate::reflection::format::Registry;
use crate::util::sorted_map::{has_key, Duplicate};
use crate::util::text::{after_last, last_segment, strings_view};

verus! {

/// Installer for generated source files in Java.
pub struct Installer {
    pub install_dir: String,
    pub external_packages: ExternalPackages,
}

impl Installer {
    /// An installer into `install_dir` that leaves out the modules of `external_packages`.
    pub fn new(package_name: &str, install_dir: &str, external_packages: &[ExternalPackage]) -> (i: Installer)
        ensures
            i.install_dir@ == install_dir@,
            i.external_packages@ == packages_by_namespace(external_packages@.map_values(|p: ExternalPackage| p@)),
    {
        let _ = package_name;
        Installer { install_dir: String::from_str(install_dir), external_packages: collect_packages(external_packages) }
    }

    /// The package and source files of a module, unless an external package provides it
    /// (the module name's last segment names the package's namespace). The configuration
    /// must not ask for C-style enums.
    pub fn module_sources(&self, config: &CodeGeneratorConfig, registry: &Registry) -> (r: Option<(Vec<String>, Vec<JavaSource>)>)
        requires
            !config.c_style_enums,
        ensures
            has_key(self.external_packages@, after_last(config.module_name@, '.')) ==> r is None,
            !has_key(self.external_packages@, after_last(config.module_name@, '.')) ==> (r matches Some((package, files))
                && strings_view(package@) == java_package(java_config(*config))
                && sources_view(files@) == java_files(java_config(*config), registry@)),
    {
        let namespace = String::from_str(last_segment(config.module_name(), '.'));
        if self.external_packages.contains_key(&namespace) {
            return None;
        }
        let mut updated = config.duplicate();
        updated.external_packages = self.external_packages.duplicate();
        assert(java_config(updated) == java_config(*config));
        let generator = CodeGenerator::new(&updated);
        Some((generator.package(), generator.source_files(registry)))
    }
}

} // verus!
