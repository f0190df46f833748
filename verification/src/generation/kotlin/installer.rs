//! Kotlin installer: the Gradle build script and the layout of generated sources.
use vstd::prelude::*;

use crate::case::{to_upper_camel_case, upper_camel_case};
use crate::generation::config::{
    CodeGeneratorConfig, Encoding, ExternalPackage, ExternalPackageV, ExternalPackages, PackageLocation, PackageLocationV,
};
use crate::generation::kotlin::generator::{kt_output, kt_registry_supported, lemma_kt_output_views, CodeGenerator};
use crate::reflection::format::Registry;
use crate::util::sorted_map::{has_key, insert_spec, SortedMap};
use crate::util::text::{after_last, join_lines, join_with_newlines, last_segment, replace_char, replace_char_with};

verus! {

/// The map of external packages built from a list: each package under its namespace,
/// a later package replacing an earlier one of the same namespace.
pub open spec fn packages_by_namespace(s: Seq<ExternalPackageV>) -> Seq<(Seq<char>, ExternalPackageV)>
    decreases s.len(),
{
    if s.len() == 0 {
        Seq::empty()
    } else {
        insert_spec::<String, ExternalPackage>(packages_by_namespace(s.drop_last()), s.last().for_namespace, s.last())
    }
}

/// Collects external packages by namespace.
pub fn collect_packages(packages: &[ExternalPackage]) -> (m: ExternalPackages)
    ensures
        m@ == packages_by_namespace(packages@.map_values(|p: ExternalPackage| p@)),
{
    let ghost views = packages@.map_values(|p: ExternalPackage| p@);
    let mut m: ExternalPackages = SortedMap::new();
    let mut i: usize = 0;
    assert(views.take(0) =~= Seq::<ExternalPackageV>::empty());
    while i < packages.len()
        invariant
            i <= packages@.len(),
            views == packages@.map_values(|p: ExternalPackage| p@),
            m@ == packages_by_namespace(views.take(i as int)),
        decreases packages@.len() - i,
    {
        let p = &packages[i];
        m.insert(p.for_namespace.clone(), p.clone());
        assert(views.take(i + 1).drop_last() =~= views.take(i as int));
        i = i + 1;
    }
    assert(views.take(packages@.len() as int) =~= views);
    m
}

/// Installer for generated source files in Kotlin.
pub struct Installer {
    pub package_name: String,
    pub install_dir: String,
    pub external_packages: ExternalPackages,
    pub encoding: Encoding,
}

/// The Gradle plugins block.
pub const PLUGINS: &'static str = "plugins {\n    id 'org.jetbrains.kotlin.jvm' version '2.2.0'\n    id 'org.jetbrains.kotlin.plugin.serialization' version '2.2.0'\n    id 'java-library'\n}";

/// The dependency on kotlinx.serialization.
pub const SERIALIZATION_DEPENDENCY: &'static str = "    implementation 'org.jetbrains.kotlinx:kotlinx-serialization-json:1.9.0'";

/// The dependency line of an external package: a local path as a file dependency; a
/// URL as the artifact named by its last path segment, at the package's version
/// (1.0.0 if none).
pub open spec fn dependency_line(p: ExternalPackageV) -> Seq<char> {
    match p.location {
        PackageLocationV::Path(path) => "    implementation files('"@ + path + "')"@,
        PackageLocationV::Url(url) => {
            let version = match p.version {
                Some(v) => v,
                None => "1.0.0"@,
            };
            "    implementation '"@ + after_last(url, '/') + ":"@ + version + "'"@
        },
    }
}

/// The dependency lines: kotlinx.serialization unless the encoding is Bincode, then one
/// line per external package, in namespace order.
pub open spec fn dependency_lines(encoding: Encoding, packages: Seq<(Seq<char>, ExternalPackageV)>) -> Seq<Seq<char>> {
    let base = if encoding == Encoding::Bincode { Seq::empty() } else { seq![SERIALIZATION_DEPENDENCY@] };
    base + packages.map_values(|e: (Seq<char>, ExternalPackageV)| dependency_line(e.1))
}

/// The Gradle build script (Groovy DSL) of a package.
pub open spec fn kotlin_manifest(package_name: Seq<char>, dependencies: Seq<char>) -> Seq<char> {
    PLUGINS@ + "\n\ngroup = '"@ + package_name + "'\nversion = '1.0.0'\n\nrepositories {\n    mavenCentral()\n}\n\ndependencies {\n"@
        + dependencies
        + "\n}\n\njar {\n    manifest {\n        attributes(\n            'Implementation-Title': '"@ + package_name
        + "',\n            'Implementation-Version': '1.0.0'\n        )\n    }\n}\n"@
}

/// Where the source of a module goes: the module name with `.` as `/`.
pub open spec fn module_dir(module_name: Seq<char>) -> Seq<char> {
    replace_char(module_name, '.', "/"@)
}

/// The file of a module's source: its last namespace segment in upper camel case, `.kt`.
pub open spec fn module_file(module_name: Seq<char>) -> Seq<char> {
    upper_camel_case(after_last(module_name, '.')) + ".kt"@
}

impl Installer {
    pub fn new(package_name: &str, install_dir: &str, external_packages: &[ExternalPackage]) -> (i: Installer)
        ensures
            i.package_name@ == package_name@,
            i.install_dir@ == install_dir@,
            i.external_packages@ == packages_by_namespace(external_packages@.map_values(|p: ExternalPackage| p@)),
            i.encoding == Encoding::Plain,
    {
        Installer {
            package_name: String::from_str(package_name),
            install_dir: String::from_str(install_dir),
            external_packages: collect_packages(external_packages),
            encoding: Encoding::default(),
        }
    }

    fn dependency(package: &ExternalPackage) -> (s: String)
        ensures
            s@ == dependency_line(package@),
    {
        match &package.location {
            PackageLocation::Path(path) => {
                let mut s = String::from_str("    implementation files('");
                s.append(path.as_str());
                s.append("')");
                s
            },
            PackageLocation::Url(url) => {
                let mut s = String::from_str("    implementation '");
                s.append(last_segment(url.as_str(), '/'));
                s.append(":");
                match &package.version {
                    Some(v) => s.append(v.as_str()),
                    None => s.append("1.0.0"),
                }
                s.append("'");
                s
            },
        }
    }

    /// The Gradle build script (`build.gradle`) of the package.
    pub fn make_manifest(&self, package_name: &str) -> (s: String)
        ensures
            s@ == kotlin_manifest(package_name@, join_lines(dependency_lines(self.encoding, self.external_packages@))),
    {
        let mut dependencies: Vec<String> = Vec::new();
        if !self.encoding.is_bincode() {
            dependencies.push(String::from_str(SERIALIZATION_DEPENDENCY));
        }
        let ghost base = dependencies@.map_values(|x: String| x@);
        let ghost packages = self.external_packages@;
        let n = self.external_packages.len();
        let mut i: usize = 0;
        while i < n
            invariant
                i <= n,
                n == packages.len(),
                packages == self.external_packages@,
                dependencies@.map_values(|x: String| x@) == base + packages.take(i as int).map_values(
                    |e: (Seq<char>, ExternalPackageV)| dependency_line(e.1),
                ),
            decreases n - i,
        {
            let (_k, package) = self.external_packages.entry(i);
            let ghost prev = dependencies@;
            let d = Self::dependency(package);
            dependencies.push(d);
            proof {
                assert(dependencies@ == prev.push(d));
                assert(dependencies@.map_values(|x: String| x@) =~= prev.map_values(|x: String| x@).push(d@));
                assert(packages.take(i + 1).map_values(|e: (Seq<char>, ExternalPackageV)| dependency_line(e.1))
                    =~= packages.take(i as int).map_values(|e: (Seq<char>, ExternalPackageV)| dependency_line(e.1)).push(dependency_line(packages[i as int].1)));
                assert(d@ == dependency_line(packages[i as int].1));
            }
            assert(dependencies@.map_values(|x: String| x@) =~= base + packages.take(i + 1).map_values(
                |e: (Seq<char>, ExternalPackageV)| dependency_line(e.1),
            ));
            i = i + 1;
        }
        assert(packages.take(n as int) =~= packages);
        assert(dependencies@.map_values(|x: String| x@) =~= dependency_lines(self.encoding, packages));
        let dependencies_str = join_with_newlines(&dependencies);
        let mut s = String::from_str(PLUGINS);
        s.append("\n\ngroup = '");
        s.append(package_name);
        s.append("'\nversion = '1.0.0'\n\nrepositories {\n    mavenCentral()\n}\n\ndependencies {\n");
        s.append(dependencies_str.as_str());
        s.append("\n}\n\njar {\n    manifest {\n        attributes(\n            'Implementation-Title': '");
        s.append(package_name);
        s.append("',\n            'Implementation-Version': '1.0.0'\n        )\n    }\n}\n");
        s
    }
}

/// A module's generated source and where it goes.
pub struct ModuleSource {
    /// The directory, relative to the install directory.
    pub dir: String,
    /// The file name in that directory.
    pub file: String,
    /// The Kotlin source.
    pub contents: String,
}

impl Installer {
    /// Prepares the source of one module, unless an external package provides the module:
    /// records the module's encoding, and generates its source with the installer's
    /// external packages.
    pub fn module_source(&mut self, config: &CodeGeneratorConfig, registry: &Registry) -> (r: Option<ModuleSource>)
        requires
            kt_registry_supported(config.encoding, registry@),
        ensures
            has_key(old(self).external_packages@, config.module_name@) ==> r is None && *final(self) == *old(self),
            !has_key(old(self).external_packages@, config.module_name@) ==> {
                &&& final(self).encoding == config.encoding
                &&& final(self).package_name == old(self).package_name
                &&& final(self).install_dir == old(self).install_dir
                &&& final(self).external_packages == old(self).external_packages
                &&& r matches Some(m) && m.dir@ == module_dir(config.module_name@)
                    && m.file@ == module_file(config.module_name@)
                    && m.contents@ == kt_output(
                        CodeGeneratorConfig { external_packages: old(self).external_packages, ..*config },
                        registry@,
                    )
            },
    {
        if self.external_packages.contains_key(&config.module_name) {
            return None;
        }
        self.encoding = config.encoding;
        let dir = replace_char_with(config.module_name(), '.', "/");
        let mut file = to_upper_camel_case(last_segment(config.module_name(), '.'));
        file.append(".kt");
        let updated = CodeGeneratorConfig {
            module_name: config.module_name.clone(),
            encoding: config.encoding,
            external_definitions: config.external_definitions.clone(),
            external_packages: self.external_packages.clone(),
            has_bigint: config.has_bigint,
            features: config.features.clone(),
            c_style_enums: config.c_style_enums,
            comments: config.comments.duplicate(),
            custom_code: config.custom_code.duplicate(),
            package_manifest: config.package_manifest,
        };
        let generator = CodeGenerator::new(&updated);
        let contents = generator.output(registry);
        proof {
            let spec_config = CodeGeneratorConfig { external_packages: old(self).external_packages, ..*config };
            lemma_kt_output_views(updated, spec_config, registry@);
        }
        Some(ModuleSource { dir, file, contents })
    }
}

} // verus!
