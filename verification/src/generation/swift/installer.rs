//! Swift installer: the Swift package manifest and the layout of generated sources.
use vstd::prelude::*;

use crate::case::{to_upper_camel_case, upper_camel_case};
use crate::generation::config::{CodeGeneratorConfig, Encoding, ExternalPackage, ExternalPackageV, ExternalPackages};
use crate::generation::kotlin::installer::{collect_packages, packages_by_namespace};
use crate::generation::module::{
    defs_view, entries_refs, external_namespace_set, external_namespaces, has_module, is_external_definitions, is_split_module,
    lemma_external_namespaces, module_entries, split, Module,
};
use crate::generation::swift::emitter::definition_namespaces;
use crate::generation::swift::generator::{sw_output, CodeGenerator};
use crate::reflection::format::{ContainerFormatV, QualifiedTypeNameV, Registry};
use crate::generation::swift::package::{indent_all_with, indented_all, spaces, swift_package_text};
use crate::util::sorted_map::{has_key, insert_spec, lemma_insert_lookup, Duplicate, lemma_insert_spec, map_lookup, SortedMap};
use crate::util::text::{concat, concat3, concat4, contains_text, insert_sorted, join_with, joined, lemma_sorted_unique, sorted_texts, sorted_unique, str_eq, strictly_sorted, strings_view};

verus! {

/// The targets of a package, each with the names of the targets it depends on.
pub type Targets = SortedMap<String, Vec<String>>;

/// Installer for generated source files in Swift.
pub struct Installer {
    pub package_name: String,
    pub install_dir: String,
    pub targets: Targets,
    pub external_packages: ExternalPackages,
    pub encoding: Encoding,
}

/// The recorded dependencies of target `name` (none if it is not recorded).
pub open spec fn target_deps(t: Seq<(Seq<char>, Seq<String>)>, name: Seq<char>) -> Set<Seq<char>> {
    match map_lookup(t, name) {
        Some(v) => strings_view(v).to_set(),
        None => Set::empty(),
    }
}

/// Every recorded dependency of every target, in target order.
pub open spec fn all_recorded(t: Seq<(Seq<char>, Seq<String>)>) -> Seq<Seq<char>>
    decreases t.len(),
{
    if t.len() == 0 {
        Seq::empty()
    } else {
        all_recorded(t.drop_last()) + strings_view(t.last().1)
    }
}

/// The dependencies of the package's own target: every recorded dependency, in upper
/// camel case.
pub open spec fn package_deps(t: Seq<(Seq<char>, Seq<String>)>) -> Set<Seq<char>> {
    Set::new(|x: Seq<char>| exists|k: int| 0 <= k < all_recorded(t).len() && x == upper_camel_case(#[trigger] all_recorded(t)[k]))
}

/// The targets of the manifest: the recorded ones and the package's own.
pub open spec fn target_names(t: Seq<(Seq<char>, Seq<String>)>, package: Seq<char>) -> Set<Seq<char>> {
    Set::new(|x: Seq<char>| has_key(t, x) || x == upper_camel_case(package))
}

/// The dependencies of a target of the manifest.
pub open spec fn deps_of(t: Seq<(Seq<char>, Seq<String>)>, package: Seq<char>, name: Seq<char>) -> Set<Seq<char>> {
    if name == upper_camel_case(package) {
        package_deps(t)
    } else {
        target_deps(t, name)
    }
}

/// The names that external packages provide: their namespaces in upper camel case.
pub open spec fn external_names(e: Seq<(Seq<char>, ExternalPackageV)>) -> Set<Seq<char>> {
    Set::new(|x: Seq<char>| exists|i: int| 0 <= i < e.len() && x == upper_camel_case(#[trigger] e[i].1.for_namespace))
}

/// Every dependency of some target of the manifest.
pub open spec fn all_deps(t: Seq<(Seq<char>, Seq<String>)>, package: Seq<char>) -> Set<Seq<char>> {
    Set::new(|x: Seq<char>| exists|n: Seq<char>| target_names(t, package).contains(n) && #[trigger] deps_of(t, package, n).contains(x))
}

/// The names that are neither provided by an external package nor a dependency.
pub open spec fn top_level(names: Seq<Seq<char>>, external: Set<Seq<char>>, deps: Set<Seq<char>>) -> Seq<Seq<char>>
    decreases names.len(),
{
    if names.len() == 0 {
        Seq::empty()
    } else {
        let rest = top_level(names.drop_last(), external, deps);
        let n = names.last();
        if !external.contains(n) && !deps.contains(n) {
            rest.push(n)
        } else {
            rest
        }
    }
}

/// The targets of the library product: the top-level targets, or the package alone if
/// there are none.
pub open spec fn library_targets(t: Seq<(Seq<char>, Seq<String>)>, package: Seq<char>, e: Seq<(Seq<char>, ExternalPackageV)>) -> Seq<Seq<char>> {
    let top = top_level(sorted_texts(target_names(t, package)), external_names(e), all_deps(t, package));
    if top.len() == 0 {
        seq![package]
    } else {
        top
    }
}

/// Names in double quotes, separated by `", "`.
pub open spec fn quoted_list(s: Seq<Seq<char>>) -> Seq<char> {
    joined(s.map_values(|x: Seq<char>| "\""@ + x + "\""@), ", "@)
}

/// A `.target` entry of the manifest, indented by eight spaces.
pub open spec fn target_block(name: Seq<char>, deps: Set<Seq<char>>) -> Seq<char> {
    indented_all(
        "        "@,
        ".target(\n    name: \""@ + name + "\",\n    dependencies: ["@ + quoted_list(sorted_texts(deps)) + "]\n),"@,
    )
}

/// The `.target` entries for the names not provided by an external package.
pub open spec fn target_blocks(
    names: Seq<Seq<char>>,
    t: Seq<(Seq<char>, Seq<String>)>,
    package: Seq<char>,
    external: Set<Seq<char>>,
) -> Seq<Seq<char>>
    decreases names.len(),
{
    if names.len() == 0 {
        Seq::empty()
    } else {
        let rest = target_blocks(names.drop_last(), t, package, external);
        let n = names.last();
        if external.contains(n) {
            rest
        } else {
            rest.push(target_block(n, deps_of(t, package, n)))
        }
    }
}

/// The `.package` dependencies of the external packages, indented by eight spaces.
pub open spec fn package_texts(e: Seq<(Seq<char>, ExternalPackageV)>) -> Seq<Seq<char>> {
    e.map_values(|p: (Seq<char>, ExternalPackageV)| indented_all(spaces(8), swift_package_text(p.1)))
}

/// The Swift package manifest: the package with its library product, the package
/// dependencies (if any), and the targets.
pub open spec fn swift_manifest(
    package_name: Seq<char>,
    library: Seq<Seq<char>>,
    packages: Seq<Seq<char>>,
    blocks: Seq<Seq<char>>,
) -> Seq<char> {
    let head = "// swift-tools-version: 5.8\nimport PackageDescription\n\nlet package = Package(\n    name: \""@ + package_name
        + "\",\n    products: [\n        .library(\n            name: \""@ + package_name + "\",\n            targets: ["@
        + quoted_list(library) + "]\n        )\n    ],\n"@;
    let dependencies = if packages.len() == 0 {
        Seq::empty()
    } else {
        "    dependencies: [\n"@ + joined(packages, ",\n"@) + "\n    ],\n"@
    };
    head + dependencies + "    targets: [\n"@ + joined(blocks, "\n"@) + "\n    ]\n)\n"@
}

/// Names in double quotes, separated by `", "`.
fn quoted_list_text(v: &Vec<String>) -> (r: String)
    ensures
        r@ == quoted_list(strings_view(v@)),
{
    let mut parts: Vec<String> = Vec::new();
    let mut i: usize = 0;
    while i < v.len()
        invariant
            i <= v.len(),
            strings_view(parts@) == strings_view(v@).take(i as int).map_values(|x: Seq<char>| "\""@ + x + "\""@),
        decreases v.len() - i,
    {
        parts.push(concat3("\"", v[i].as_str(), "\""));
        proof {
            let a = strings_view(parts@);
            let b = strings_view(v@).take(i + 1).map_values(|x: Seq<char>| "\""@ + x + "\""@);
            let c = strings_view(v@).take(i as int).map_values(|x: Seq<char>| "\""@ + x + "\""@);
            assert(c.len() == i);
            assert(a.len() == parts@.len());
            assert forall|j: int| 0 <= j < a.len() implies a[j] == b[j] by {
                if j < i {
                    assert(a[j] == c[j]);
                }
            }
            assert(a =~= b);
        }
        i = i + 1;
    }
    assert(strings_view(v@).take(v.len() as int) =~= strings_view(v@));
    join_with(&parts, ", ")
}

/// The manifest from its parts: the package name, the library targets, the texts of the
/// package dependencies and the target entries.
pub fn manifest_text(package_name: &str, library: &Vec<String>, packages: &Vec<String>, blocks: &Vec<String>) -> (r: String)
    ensures
        r@ == swift_manifest(package_name@, strings_view(library@), strings_view(packages@), strings_view(blocks@)),
{
    let mut r = concat3(
        "// swift-tools-version: 5.8\nimport PackageDescription\n\nlet package = Package(\n    name: \"",
        package_name,
        "\",\n    products: [\n        .library(\n            name: \"",
    );
    r.append(package_name);
    r.append("\",\n            targets: [");
    r.append(quoted_list_text(library).as_str());
    r.append("]\n        )\n    ],\n");
    let ghost head = r@;
    if packages.len() > 0 {
        r.append("    dependencies: [\n");
        r.append(join_with(packages, ",\n").as_str());
        r.append("\n    ],\n");
    }
    r.append("    targets: [\n");
    r.append(join_with(blocks, "\n").as_str());
    r.append("\n    ]\n)\n");
    r
}

} // verus!

verus! {

/// The target names of the manifest, in order.
fn manifest_target_names(t: &Targets, package: &str) -> (names: Vec<String>)
    ensures
        strings_view(names@) == sorted_texts(target_names(t@, package@)),
        strings_view(names@).to_set() == target_names(t@, package@),
{
    let mut names: Vec<String> = Vec::new();
    assert(strings_view(names@) =~= Seq::<Seq<char>>::empty());
    let own = to_upper_camel_case(package);
    let ghost own_v = own@;
    insert_sorted(&mut names, own);
    let n = t.len();
    let mut i: usize = 0;
    while i < n
        invariant
            i <= n == t@.len(),
            own_v == upper_camel_case(package@),
            strictly_sorted(strings_view(names@)),
            strings_view(names@).to_set() == Set::new(
                |x: Seq<char>| (exists|j: int| 0 <= j < i && (#[trigger] t@[j]).0 == x) || x == own_v,
            ),
        decreases n - i,
    {
        let (k, _v) = t.entry(i);
        let ghost before = strings_view(names@).to_set();
        insert_sorted(&mut names, k.clone());
        proof {
            assert forall|x: Seq<char>| strings_view(names@).to_set().contains(x) <==> (
                (exists|j: int| 0 <= j < i + 1 && (#[trigger] t@[j]).0 == x) || x == own_v) by {
                if exists|j: int| 0 <= j < i + 1 && (#[trigger] t@[j]).0 == x {
                    let j = choose|j: int| 0 <= j < i + 1 && (#[trigger] t@[j]).0 == x;
                    if j < i {
                        assert(before.contains(x));
                    }
                }
                if before.contains(x) && x != own_v {
                    let j = choose|j: int| 0 <= j < i && (#[trigger] t@[j]).0 == x;
                    assert(0 <= j < i + 1);
                }
            }
            assert(strings_view(names@).to_set() =~= Set::new(
                |x: Seq<char>| (exists|j: int| 0 <= j < i + 1 && (#[trigger] t@[j]).0 == x) || x == own_v,
            ));
        }
        i = i + 1;
    }
    proof {
        assert(strings_view(names@).to_set() =~= target_names(t@, package@));
        lemma_sorted_unique(strings_view(names@), sorted_texts(target_names(t@, package@)));
    }
    names
}

/// The package's own dependencies, in order.
fn package_deps_sorted(t: &Targets) -> (r: Vec<String>)
    ensures
        strings_view(r@) == sorted_texts(package_deps(t@)),
        strictly_sorted(strings_view(r@)),
        strings_view(r@).to_set() == package_deps(t@),
{
    let mut flat: Vec<String> = Vec::new();
    let n = t.len();
    let mut i: usize = 0;
    assert(strings_view(flat@) =~= all_recorded(t@.take(0)));
    while i < n
        invariant
            i <= n == t@.len(),
            strings_view(flat@) == all_recorded(t@.take(i as int)),
        decreases n - i,
    {
        let (_k, v) = t.entry(i);
        let mut j: usize = 0;
        let ghost before = strings_view(flat@);
        while j < v.len()
            invariant
                j <= v.len(),
                strings_view(flat@) == before + strings_view(v@).take(j as int),
            decreases v.len() - j,
        {
            let ghost f0 = flat@;
            let x = v[j].clone();
            assert(x@ == v@[j as int]@);
            flat.push(x);
            proof {
                assert(flat@ == f0.push(x));
                assert(strings_view(flat@) =~= strings_view(f0).push(x@));
                assert(strings_view(v@).take(j + 1) =~= strings_view(v@).take(j as int).push(x@));
                assert(strings_view(flat@) =~= before + strings_view(v@).take(j + 1));
            }
            j = j + 1;
        }
        proof {
            assert(strings_view(v@).take(v.len() as int) =~= strings_view(v@));
            assert(t@.take(i + 1).drop_last() =~= t@.take(i as int));
            assert(strings_view(v@) == t@[i as int].1.map_values(|x: String| x@));
        }
        i = i + 1;
    }
    assert(t@.take(n as int) =~= t@);
    let ghost all = all_recorded(t@);
    let mut r: Vec<String> = Vec::new();
    let mut k: usize = 0;
    assert(strings_view(r@).to_set() =~= Set::<Seq<char>>::empty());
    while k < flat.len()
        invariant
            k <= flat.len() == all.len(),
            all == strings_view(flat@),
            strictly_sorted(strings_view(r@)),
            strings_view(r@).to_set() == Set::new(|x: Seq<char>| exists|m: int| 0 <= m < k && x == upper_camel_case(#[trigger] all[m])),
        decreases flat.len() - k,
    {
        let ghost before = strings_view(r@).to_set();
        insert_sorted(&mut r, to_upper_camel_case(flat[k].as_str()));
        proof {
            assert forall|x: Seq<char>| strings_view(r@).to_set().contains(x) <==> (
                exists|m: int| 0 <= m < k + 1 && x == upper_camel_case(#[trigger] all[m])) by {
                if exists|m: int| 0 <= m < k + 1 && x == upper_camel_case(#[trigger] all[m]) {
                    let m = choose|m: int| 0 <= m < k + 1 && x == upper_camel_case(#[trigger] all[m]);
                    if m < k {
                        assert(before.contains(x));
                    }
                }
                if before.contains(x) {
                    let m = choose|m: int| 0 <= m < k && x == upper_camel_case(#[trigger] all[m]);
                    assert(0 <= m < k + 1);
                }
                if x == upper_camel_case(all[k as int]) {
                    assert(0 <= k < k + 1);
                }
            }
            assert(strings_view(r@).to_set() =~= Set::new(
                |x: Seq<char>| exists|m: int| 0 <= m < k + 1 && x == upper_camel_case(#[trigger] all[m]),
            ));
        }
        k = k + 1;
    }
    proof {
        assert(strings_view(r@).to_set() =~= package_deps(t@));
        lemma_sorted_unique(strings_view(r@), sorted_texts(package_deps(t@)));
    }
    r
}

/// The names that the external packages provide.
fn external_names_of(e: &ExternalPackages) -> (r: Vec<String>)
    ensures
        strings_view(r@).to_set() == external_names(e@),
{
    let mut r: Vec<String> = Vec::new();
    let n = e.len();
    let mut i: usize = 0;
    assert(strings_view(r@).to_set() =~= Set::<Seq<char>>::empty());
    while i < n
        invariant
            i <= n == e@.len(),
            strictly_sorted(strings_view(r@)),
            strings_view(r@).to_set() == Set::new(
                |x: Seq<char>| exists|j: int| 0 <= j < i && x == upper_camel_case(#[trigger] e@[j].1.for_namespace),
            ),
        decreases n - i,
    {
        let (_k, p) = e.entry(i);
        let ghost before = strings_view(r@).to_set();
        insert_sorted(&mut r, to_upper_camel_case(p.for_namespace.as_str()));
        proof {
            assert forall|x: Seq<char>| strings_view(r@).to_set().contains(x) <==> (
                exists|j: int| 0 <= j < i + 1 && x == upper_camel_case(#[trigger] e@[j].1.for_namespace)) by {
                if exists|j: int| 0 <= j < i + 1 && x == upper_camel_case(#[trigger] e@[j].1.for_namespace) {
                    let j = choose|j: int| 0 <= j < i + 1 && x == upper_camel_case(#[trigger] e@[j].1.for_namespace);
                    if j < i {
                        assert(before.contains(x));
                    }
                }
                if before.contains(x) {
                    let j = choose|j: int| 0 <= j < i && x == upper_camel_case(#[trigger] e@[j].1.for_namespace);
                    assert(0 <= j < i + 1);
                }
                if x == upper_camel_case(e@[i as int].1.for_namespace) {
                    assert(0 <= i < i + 1);
                }
            }
            assert(strings_view(r@).to_set() =~= Set::new(
                |x: Seq<char>| exists|j: int| 0 <= j < i + 1 && x == upper_camel_case(#[trigger] e@[j].1.for_namespace),
            ));
        }
        i = i + 1;
    }
    assert(strings_view(r@).to_set() =~= external_names(e@));
    r
}

/// The dependencies of one target of the manifest, in order.
fn deps_of_target(t: &Targets, package: &str, own_deps: &Vec<String>, name: &String) -> (r: Vec<String>)
    requires
        strings_view(own_deps@) == sorted_texts(package_deps(t@)),
        strictly_sorted(strings_view(own_deps@)),
        strings_view(own_deps@).to_set() == package_deps(t@),
    ensures
        strings_view(r@) == sorted_texts(deps_of(t@, package@, name@)),
        strictly_sorted(strings_view(r@)),
        strings_view(r@).to_set() == deps_of(t@, package@, name@),
{
    let own = to_upper_camel_case(package);
    if str_eq(own.as_str(), name.as_str()) {
        let mut r: Vec<String> = Vec::new();
        let mut i: usize = 0;
        while i < own_deps.len()
            invariant
                i <= own_deps.len(),
                strings_view(r@) == strings_view(own_deps@).take(i as int),
            decreases own_deps.len() - i,
        {
            let ghost r0 = r@;
            let x = own_deps[i].clone();
            assert(x@ == own_deps@[i as int]@);
            r.push(x);
            proof {
                assert(strings_view(r@) =~= strings_view(r0).push(x@));
                assert(strings_view(r@) =~= strings_view(own_deps@).take(i + 1));
            }
            i = i + 1;
        }
        assert(strings_view(own_deps@).take(own_deps.len() as int) =~= strings_view(own_deps@));
        r
    } else {
        match t.get(name) {
            Some(v) => sorted_unique(v),
            None => {
                let r: Vec<String> = Vec::new();
                proof {
                    assert(strings_view(r@) =~= Seq::<Seq<char>>::empty());
                    assert(strings_view(r@).to_set() =~= Set::<Seq<char>>::empty());
                    lemma_sorted_unique(strings_view(r@), sorted_texts(Set::<Seq<char>>::empty()));
                }
                r
            },
        }
    }
}

/// Adds each text of `items` to a strictly increasing vector.
fn insert_all(v: &mut Vec<String>, items: &Vec<String>)
    requires
        strictly_sorted(strings_view(old(v)@)),
    ensures
        strictly_sorted(strings_view(final(v)@)),
        strings_view(final(v)@).to_set() == strings_view(old(v)@).to_set().union(strings_view(items@).to_set()),
{
    let ghost start = strings_view(v@).to_set();
    let mut i: usize = 0;
    while i < items.len()
        invariant
            i <= items.len(),
            strictly_sorted(strings_view(v@)),
            strings_view(v@).to_set() == start.union(strings_view(items@).take(i as int).to_set()),
        decreases items.len() - i,
    {
        insert_sorted(v, items[i].clone());
        proof {
            let s = strings_view(items@);
            assert(s.take(i + 1) =~= s.take(i as int).push(s[i as int]));
            s.take(i as int).lemma_push_to_set_commute(s[i as int]);
            assert(strings_view(v@).to_set() =~= start.union(s.take(i + 1).to_set()));
        }
        i = i + 1;
    }
    assert(strings_view(items@).take(items.len() as int) =~= strings_view(items@));
}

} // verus!

verus! {

/// The `.target` entry of a target with the given (sorted) dependencies.
fn target_block_text(name: &str, deps: &Vec<String>) -> (r: String)
    ensures
        r@ == indented_all(
            "        "@,
            ".target(\n    name: \""@ + name@ + "\",\n    dependencies: ["@ + quoted_list(strings_view(deps@)) + "]\n),"@,
        ),
{
    let mut text = concat4(".target(\n    name: \"", name, "\",\n    dependencies: [", quoted_list_text(deps).as_str());
    text.append("]\n),");
    indent_all_with("        ", text.as_str())
}

impl Installer {
    /// An installer for the package `package_name`, writing into `install_dir`, with no
    /// targets, no external packages and no encoding.
    pub fn new(package_name: &str, install_dir: &str) -> (i: Installer)
        ensures
            i.package_name@ == package_name@,
            i.install_dir@ == install_dir@,
            i.targets@.len() == 0,
            i.external_packages@.len() == 0,
            i.encoding == Encoding::Plain,
    {
        Installer {
            package_name: String::from_str(package_name),
            install_dir: String::from_str(install_dir),
            targets: SortedMap::new(),
            external_packages: SortedMap::new(),
            encoding: Encoding::default(),
        }
    }

    /// The installer with its encoding set.
    pub fn encoding(self, encoding: Encoding) -> (i: Installer)
        ensures
            i == (Installer { encoding, ..self }),
    {
        Installer { encoding, ..self }
    }

    /// The installer with its external packages set: each package under its namespace, a
    /// later package replacing an earlier one of the same namespace.
    pub fn external_packages(self, packages: &[ExternalPackage]) -> (i: Installer)
        ensures
            i.package_name == self.package_name,
            i.install_dir == self.install_dir,
            i.targets == self.targets,
            i.encoding == self.encoding,
            i.external_packages@ == packages_by_namespace(packages@.map_values(|p: ExternalPackage| p@)),
    {
        Installer { external_packages: collect_packages(packages), ..self }
    }

    /// The Swift package manifest (`Package.swift`): a library product of the top-level
    /// targets, the external packages as dependencies, and a target per recorded target
    /// and for the package itself, which depends on every recorded dependency; the
    /// targets that external packages provide are left out.
    pub fn make_manifest(&self, package_name: &str) -> (r: String)
        ensures
            r@ == swift_manifest(
                self.package_name@,
                library_targets(self.targets@, package_name@, self.external_packages@),
                package_texts(self.external_packages@),
                target_blocks(
                    sorted_texts(target_names(self.targets@, package_name@)),
                    self.targets@,
                    package_name@,
                    external_names(self.external_packages@),
                ),
            ),
    {
        let t = &self.targets;
        let names = manifest_target_names(t, package_name);
        let own_deps = package_deps_sorted(t);
        let ext = external_names_of(&self.external_packages);
        let (all, blocks) = collect_targets(t, package_name, &names, &own_deps, &ext, Ghost(external_names(self.external_packages@)));
        let top = top_level_targets(&names, &ext, &all, Ghost(external_names(self.external_packages@)), Ghost(all_deps(t@, package_name@)));
        let library = if top.len() == 0 {
            let v = vec![String::from_str(package_name)];
            assert(strings_view(v@) =~= seq![package_name@]);
            v
        } else {
            top
        };
        let packages = package_texts_of(&self.external_packages);
        manifest_text(self.package_name.as_str(), &library, &packages, &blocks)
    }
}

/// The dependencies of all targets together, and the target entries.
fn collect_targets(
    t: &Targets,
    package_name: &str,
    names: &Vec<String>,
    own_deps: &Vec<String>,
    ext: &Vec<String>,
    Ghost(ext_set): Ghost<Set<Seq<char>>>,
) -> (r: (Vec<String>, Vec<String>))
    requires
        strings_view(names@) == sorted_texts(target_names(t@, package_name@)),
        strings_view(names@).to_set() == target_names(t@, package_name@),
        strings_view(own_deps@) == sorted_texts(package_deps(t@)),
        strictly_sorted(strings_view(own_deps@)),
        strings_view(own_deps@).to_set() == package_deps(t@),
        strings_view(ext@).to_set() == ext_set,
    ensures
        strings_view(r.0@).to_set() == all_deps(t@, package_name@),
        strings_view(r.1@) == target_blocks(strings_view(names@), t@, package_name@, ext_set),
{
    let ghost tv = t@;
    let ghost pkg = package_name@;
    let ghost nv = strings_view(names@);
    let mut all: Vec<String> = Vec::new();
    let mut blocks: Vec<String> = Vec::new();
    let mut i: usize = 0;
    assert(strings_view(all@).to_set() =~= Set::<Seq<char>>::empty());
    assert(strings_view(blocks@) =~= target_blocks(nv.take(0), tv, pkg, ext_set));
    while i < names.len()
        invariant
            i <= names.len() == nv.len(),
            nv == strings_view(names@),
            strings_view(own_deps@) == sorted_texts(package_deps(tv)),
            strictly_sorted(strings_view(own_deps@)),
            strings_view(own_deps@).to_set() == package_deps(tv),
            tv == t@,
            pkg == package_name@,
            strings_view(ext@).to_set() == ext_set,
            strictly_sorted(strings_view(all@)),
            strings_view(all@).to_set() == Set::new(
                |x: Seq<char>| exists|j: int| 0 <= j < i && #[trigger] deps_of(tv, pkg, nv[j]).contains(x),
            ),
            strings_view(blocks@) == target_blocks(nv.take(i as int), tv, pkg, ext_set),
        decreases names.len() - i,
    {
        let name = &names[i];
        let deps = deps_of_target(t, package_name, own_deps, name);
        let ghost before = strings_view(all@).to_set();
        insert_all(&mut all, &deps);
        proof {
            assert(name@ == nv[i as int]);
            assert forall|x: Seq<char>| strings_view(all@).to_set().contains(x) <==> (
                exists|j: int| 0 <= j < i + 1 && #[trigger] deps_of(tv, pkg, nv[j]).contains(x)) by {
                if exists|j: int| 0 <= j < i + 1 && #[trigger] deps_of(tv, pkg, nv[j]).contains(x) {
                    let j = choose|j: int| 0 <= j < i + 1 && #[trigger] deps_of(tv, pkg, nv[j]).contains(x);
                    if j < i {
                        assert(before.contains(x));
                    }
                }
                if before.contains(x) {
                    let j = choose|j: int| 0 <= j < i && #[trigger] deps_of(tv, pkg, nv[j]).contains(x);
                    assert(0 <= j < i + 1);
                }
            }
            assert(strings_view(all@).to_set() =~= Set::new(
                |x: Seq<char>| exists|j: int| 0 <= j < i + 1 && #[trigger] deps_of(tv, pkg, nv[j]).contains(x),
            ));
            assert(nv.take(i + 1).drop_last() =~= nv.take(i as int));
            assert(nv.take(i + 1).last() == nv[i as int]);
        }
        if !contains_text(ext, name.as_str()) {
            blocks.push(target_block_text(name.as_str(), &deps));
            assert(strings_view(blocks@) =~= target_blocks(nv.take(i + 1), tv, pkg, ext_set));
        } else {
            assert(strings_view(blocks@) =~= target_blocks(nv.take(i + 1), tv, pkg, ext_set));
        }
        i = i + 1;
    }
    proof {
        assert(nv.take(nv.len() as int) =~= nv);
        assert forall|x: Seq<char>| strings_view(all@).to_set().contains(x) <==> all_deps(tv, pkg).contains(x) by {
            if strings_view(all@).to_set().contains(x) {
                let j = choose|j: int| 0 <= j < nv.len() && #[trigger] deps_of(tv, pkg, nv[j]).contains(x);
                assert(nv.to_set().contains(nv[j]));
                assert(target_names(tv, pkg).contains(nv[j]));
            }
            if all_deps(tv, pkg).contains(x) {
                let n = choose|n: Seq<char>| target_names(tv, pkg).contains(n) && #[trigger] deps_of(tv, pkg, n).contains(x);
                assert(nv.to_set().contains(n));
                let j = choose|j: int| 0 <= j < nv.len() && nv[j] == n;
                assert(deps_of(tv, pkg, nv[j]).contains(x));
            }
        }
        assert(strings_view(all@).to_set() =~= all_deps(tv, pkg));
    }
    (all, blocks)
}

/// The names that are neither provided by an external package nor a dependency.
fn top_level_targets(
    names: &Vec<String>,
    ext: &Vec<String>,
    all: &Vec<String>,
    Ghost(ext_set): Ghost<Set<Seq<char>>>,
    Ghost(deps_set): Ghost<Set<Seq<char>>>,
) -> (top: Vec<String>)
    requires
        strings_view(ext@).to_set() == ext_set,
        strings_view(all@).to_set() == deps_set,
    ensures
        strings_view(top@) == top_level(strings_view(names@), ext_set, deps_set),
{
    let ghost nv = strings_view(names@);
    let mut top: Vec<String> = Vec::new();
    let mut k: usize = 0;
    assert(strings_view(top@) =~= top_level(nv.take(0), ext_set, deps_set));
    while k < names.len()
        invariant
            k <= names.len() == nv.len(),
            nv == strings_view(names@),
            strings_view(ext@).to_set() == ext_set,
            strings_view(all@).to_set() == deps_set,
            strings_view(top@) == top_level(nv.take(k as int), ext_set, deps_set),
        decreases names.len() - k,
    {
        proof {
            assert(nv.take(k + 1).drop_last() =~= nv.take(k as int));
            assert(nv.take(k + 1).last() == nv[k as int]);
        }
        if !contains_text(ext, names[k].as_str()) && !contains_text(all, names[k].as_str()) {
            let ghost t0 = top@;
            let x = names[k].clone();
            top.push(x);
            assert(strings_view(top@) =~= strings_view(t0).push(nv[k as int]));
            assert(strings_view(top@) =~= top_level(nv.take(k + 1), ext_set, deps_set));
        } else {
            assert(strings_view(top@) =~= top_level(nv.take(k + 1), ext_set, deps_set));
        }
        k = k + 1;
    }
    assert(nv.take(nv.len() as int) =~= nv);
    top
}

/// The dependency texts of the external packages.
fn package_texts_of(e: &ExternalPackages) -> (packages: Vec<String>)
    ensures
        strings_view(packages@) == package_texts(e@),
{
    let mut packages: Vec<String> = Vec::new();
    let mut m: usize = 0;
    let n = e.len();
    while m < n
        invariant
            m <= n == e@.len(),
            strings_view(packages@) == package_texts(e@).take(m as int),
        decreases n - m,
    {
        let (_ns, p) = e.entry(m);
        let q = p.clone();
        assert(q@ == e@[m as int].1);
        let text = q.to_swift(2);
        let ghost p0 = packages@;
        packages.push(text);
        proof {
            assert(text@ == package_texts(e@)[m as int]);
            assert(strings_view(packages@) =~= strings_view(p0).push(text@));
            assert(strings_view(packages@) =~= package_texts(e@).take(m + 1));
        }
        m = m + 1;
    }
    assert(package_texts(e@).take(n as int) =~= package_texts(e@));
    packages
}

} // verus!

verus! {

/// The dependencies that the target of a module records: the namespaces of its external
/// definitions in upper camel case, and `Serde` under an encoding.
pub open spec fn module_deps(c: CodeGeneratorConfig) -> Set<Seq<char>> {
    Set::new(
        |x: Seq<char>|
            (exists|i: int| 0 <= i < c.external_definitions@.len() && x == upper_camel_case(#[trigger] c.external_definitions@[i].0))
                || (c.encoding != Encoding::Plain && x == "Serde"@),
    )
}

/// The dependencies of the target of module `key` of a registry's entries under
/// `encoding`: the modules (in upper camel case) of the namespaces other than `key` that
/// its types refer to, and `Serde` under an encoding.
pub open spec fn split_module_deps(
    entries: Seq<(QualifiedTypeNameV, ContainerFormatV)>,
    root: Seq<char>,
    key: Seq<char>,
    encoding: Encoding,
) -> Set<Seq<char>> {
    Set::new(
        |x: Seq<char>|
            (exists|ns: Seq<char>|
                #[trigger] external_namespace_set(entries_refs(module_entries(entries, root, key)), key).contains(ns)
                    && x == upper_camel_case(ns)) || (encoding != Encoding::Plain && x == "Serde"@),
    )
}

/// Whether `x` is the target of a module of the registry's entries that no external
/// package provides.
pub open spec fn generated_target(
    entries: Seq<(QualifiedTypeNameV, ContainerFormatV)>,
    root: Seq<char>,
    ext: Seq<(Seq<char>, ExternalPackageV)>,
    x: Seq<char>,
) -> bool {
    exists|k: Seq<char>| #[trigger] has_module(entries, root, k) && !has_key(ext, k) && x == upper_camel_case(k)
}

/// The dependencies that generating a registry's modules gives the target `x`: those of
/// every module whose target it is.
pub open spec fn generated_deps(
    entries: Seq<(QualifiedTypeNameV, ContainerFormatV)>,
    root: Seq<char>,
    ext: Seq<(Seq<char>, ExternalPackageV)>,
    encoding: Encoding,
    x: Seq<char>,
) -> Set<Seq<char>> {
    Set::new(
        |d: Seq<char>|
            exists|k: Seq<char>|
                #[trigger] has_module(entries, root, k) && !has_key(ext, k) && x == upper_camel_case(k)
                    && split_module_deps(entries, root, k, encoding).contains(d),
    )
}

/// The recorded dependencies of `x` once the Serde runtime is recorded, under an
/// encoding, as a target without dependencies.
pub open spec fn runtime_deps(t: Seq<(Seq<char>, Seq<String>)>, encoding: Encoding, x: Seq<char>) -> Set<Seq<char>> {
    if encoding != Encoding::Plain && x == "Serde"@ {
        Set::empty()
    } else {
        target_deps(t, x)
    }
}

/// The dependencies of a split module's configuration, under `encoding`, are those of its
/// target.
proof fn lemma_split_module_deps(
    c: CodeGeneratorConfig,
    m: &Module,
    r: &Registry,
    entries: Seq<(QualifiedTypeNameV, ContainerFormatV)>,
    root: Seq<char>,
)
    requires
        is_split_module(m, r, entries, root),
        c.external_definitions@ == m.config().external_definitions@,
        c.module_name@ == m.config().module_name@,
    ensures
        module_deps(c) == split_module_deps(entries, root, c.module_name@, c.encoding),
{
    let key = c.module_name@;
    let d = c.external_definitions@;
    let refs = entries_refs(module_entries(entries, root, key));
    assert(r@ == module_entries(entries, root, key));
    assert(is_external_definitions(defs_view(d), refs, key));
    assert forall|x: Seq<char>| #[trigger] module_deps(c).contains(x) <==> split_module_deps(entries, root, key, c.encoding).contains(x) by {
        if exists|i: int| 0 <= i < d.len() && x == upper_camel_case(#[trigger] d[i].0) {
            let i = choose|i: int| 0 <= i < d.len() && x == upper_camel_case(#[trigger] d[i].0);
            assert(defs_view(d)[i].0 == d[i].0);
            assert(has_key(defs_view(d), d[i].0));
            assert(external_namespace_set(refs, key).contains(d[i].0));
        }
        if exists|ns: Seq<char>| #[trigger] external_namespace_set(refs, key).contains(ns) && x == upper_camel_case(ns) {
            let ns = choose|ns: Seq<char>| #[trigger] external_namespace_set(refs, key).contains(ns) && x == upper_camel_case(ns);
            assert(has_key(defs_view(d), ns));
            let i = choose|i: int| 0 <= i < defs_view(d).len() && defs_view(d)[i].0 == ns;
            assert(defs_view(d)[i].0 == d[i].0);
            assert(0 <= i < d.len() && x == upper_camel_case(d[i].0));
        }
    }
    assert(module_deps(c) =~= split_module_deps(entries, root, key, c.encoding));
}

/// Whether `x` is the target of one of the first `n` split modules that no external
/// package provides.
pub open spec fn modules_target(modules: Seq<(Module, Registry)>, n: int, ext: Seq<(Seq<char>, ExternalPackageV)>, x: Seq<char>) -> bool {
    exists|m: int|
        0 <= m < n && !has_key(ext, (#[trigger] modules[m]).0.config().module_name@) && x == upper_camel_case(
            modules[m].0.config().module_name@,
        )
}

/// The dependencies that the first `n` split modules give the target `x`.
pub open spec fn modules_deps(
    modules: Seq<(Module, Registry)>,
    n: int,
    entries: Seq<(QualifiedTypeNameV, ContainerFormatV)>,
    root: Seq<char>,
    ext: Seq<(Seq<char>, ExternalPackageV)>,
    encoding: Encoding,
    x: Seq<char>,
) -> Set<Seq<char>> {
    Set::new(
        |d: Seq<char>|
            exists|m: int|
                0 <= m < n && !has_key(ext, (#[trigger] modules[m]).0.config().module_name@) && x == upper_camel_case(
                    modules[m].0.config().module_name@,
                ) && split_module_deps(entries, root, modules[m].0.config().module_name@, encoding).contains(d),
    )
}

impl Installer {
    /// Records the target of a module, unless an external package provides it: the
    /// module's name in upper camel case, which gains the module's dependencies. Returns
    /// that name, or `None` for a module provided by an external package.
    pub fn register_module(&mut self, config: &CodeGeneratorConfig) -> (r: Option<String>)
        ensures
            final(self).package_name == old(self).package_name,
            final(self).install_dir == old(self).install_dir,
            final(self).external_packages == old(self).external_packages,
            final(self).encoding == old(self).encoding,
            has_key(old(self).external_packages@, config.module_name@) ==> r is None && final(self).targets@ == old(self).targets@,
            !has_key(old(self).external_packages@, config.module_name@) ==> (r matches Some(m) && {
                &&& m@ == upper_camel_case(config.module_name@)
                &&& forall|x: Seq<char>| has_key(final(self).targets@, x) <==> (has_key(old(self).targets@, x) || x == m@)
                &&& target_deps(final(self).targets@, m@) == target_deps(old(self).targets@, m@).union(module_deps(*config))
                &&& forall|x: Seq<char>| x != m@ ==> target_deps(final(self).targets@, x) == target_deps(old(self).targets@, x)
            }),
    {
        if self.external_packages.contains_key(&config.module_name) {
            return None;
        }
        let name = to_upper_camel_case(config.module_name.as_str());
        let ghost t0 = self.targets@;
        let mut deps: Vec<String> = match self.targets.get(&name) {
            Some(v) => sorted_unique(v),
            None => {
                let v: Vec<String> = Vec::new();
                assert(strings_view(v@) =~= Seq::<Seq<char>>::empty());
                v
            },
        };
        proof {
            assert(strings_view(deps@).to_set() =~= target_deps(t0, name@));
        }
        let defs = &config.external_definitions;
        let n = defs.len();
        let mut i: usize = 0;
        while i < n
            invariant
                i <= n == defs@.len(),
                defs == &config.external_definitions,
                strictly_sorted(strings_view(deps@)),
                strings_view(deps@).to_set() == target_deps(t0, name@).union(Set::new(
                    |x: Seq<char>| exists|j: int| 0 <= j < i && x == upper_camel_case(#[trigger] defs@[j].0),
                )),
            decreases n - i,
        {
            let (ns, _names) = defs.entry(i);
            let ghost before = strings_view(deps@).to_set();
            insert_sorted(&mut deps, to_upper_camel_case(ns.as_str()));
            proof {
                assert forall|x: Seq<char>| strings_view(deps@).to_set().contains(x) <==> target_deps(t0, name@).union(Set::new(
                    |x: Seq<char>| exists|j: int| 0 <= j < i + 1 && x == upper_camel_case(#[trigger] defs@[j].0),
                )).contains(x) by {
                    if exists|j: int| 0 <= j < i + 1 && x == upper_camel_case(#[trigger] defs@[j].0) {
                        let j = choose|j: int| 0 <= j < i + 1 && x == upper_camel_case(#[trigger] defs@[j].0);
                        if j < i {
                            assert(before.contains(x));
                        }
                    }
                    if before.contains(x) && !target_deps(t0, name@).contains(x) {
                        let j = choose|j: int| 0 <= j < i && x == upper_camel_case(#[trigger] defs@[j].0);
                        assert(0 <= j < i + 1);
                    }
                    if x == upper_camel_case(defs@[i as int].0) {
                        assert(0 <= i < i + 1);
                    }
                }
                assert(strings_view(deps@).to_set() =~= target_deps(t0, name@).union(Set::new(
                    |x: Seq<char>| exists|j: int| 0 <= j < i + 1 && x == upper_camel_case(#[trigger] defs@[j].0),
                )));
            }
            i = i + 1;
        }
        if config.has_encoding() {
            insert_sorted(&mut deps, String::from_str("Serde"));
        }
        proof {
            reveal_strlit("Serde");
            assert(strings_view(deps@).to_set() =~= target_deps(t0, name@).union(module_deps(*config)));
        }
        let ghost m = name@;
        let ghost dv = deps@;
        let r = name.clone();
        let _count = self.targets.len();
        self.targets.insert(name, deps);
        proof {
            lemma_insert_spec::<String, Vec<String>>(t0, m, dv);
            assert forall|x: Seq<char>| #[trigger] target_deps(self.targets@, x) == if x == m {
                strings_view(dv).to_set()
            } else {
                target_deps(t0, x)
            } by {
                lemma_insert_lookup::<String, Vec<String>>(t0, m, dv, x);
            }
        }
        Some(r)
    }
}

} // verus!

verus! {

/// A generated Swift source file: its directory and file name below the install
/// directory, and its text.
pub struct SwiftSource {
    pub directory: String,
    pub file: String,
    pub contents: String,
}

/// What an installation writes: whether the Serde runtime is installed, the generated
/// sources, and the package manifest.
pub struct SwiftPackage {
    pub serde_runtime: bool,
    pub sources: Vec<SwiftSource>,
    pub manifest: String,
    /// The module of each source.
    pub modules: Ghost<Seq<Seq<char>>>,
}

/// `s` is the source of module `key` of the registry: `Sources/<Key>/<Key>.swift`, holding
/// the Swift output for the module's entries, importing the other namespaces that they
/// refer to.
pub open spec fn is_module_source(
    s: SwiftSource,
    key: Seq<char>,
    entries: Seq<(QualifiedTypeNameV, ContainerFormatV)>,
    root: Seq<char>,
    encoding: Encoding,
) -> bool {
    let me = module_entries(entries, root, key);
    &&& s.directory@ == "Sources/"@ + upper_camel_case(key)
    &&& s.file@ == upper_camel_case(key) + ".swift"@
    &&& s.contents@ == sw_output(encoding, external_namespaces(entries_refs(me), key), me)
}

/// The manifest that the installer's state gives for its own package name.
pub open spec fn installer_manifest(i: &Installer) -> Seq<char> {
    let t = i.targets@;
    let p = i.package_name@;
    let e = i.external_packages@;
    swift_manifest(p, library_targets(t, p, e), package_texts(e), target_blocks(sorted_texts(target_names(t, p)), t, p, external_names(e)))
}

/// One step of generation: registering module `j` adds its target and dependencies to
/// those of the modules before it.
proof fn lemma_generate_step(
    modules: Seq<(Module, Registry)>,
    j: int,
    entries: Seq<(QualifiedTypeNameV, ContainerFormatV)>,
    root: Seq<char>,
    ext: Seq<(Seq<char>, ExternalPackageV)>,
    encoding: Encoding,
    t1: Seq<(Seq<char>, Seq<String>)>,
    before: Seq<(Seq<char>, Seq<String>)>,
    after: Seq<(Seq<char>, Seq<String>)>,
    config: CodeGeneratorConfig,
)
    requires
        0 <= j < modules.len(),
        config.module_name@ == modules[j].0.config().module_name@,
        config.encoding == encoding,
        module_deps(config) == split_module_deps(entries, root, config.module_name@, encoding),
        forall|x: Seq<char>| #[trigger] has_key(before, x) <==> (has_key(t1, x) || modules_target(modules, j, ext, x)),
        forall|x: Seq<char>| #[trigger] target_deps(before, x) == target_deps(t1, x).union(
            modules_deps(modules, j, entries, root, ext, encoding, x),
        ),
        has_key(ext, config.module_name@) ==> after == before,
        !has_key(ext, config.module_name@) ==> {
            let m = upper_camel_case(config.module_name@);
            &&& forall|x: Seq<char>| has_key(after, x) <==> (has_key(before, x) || x == m)
            &&& target_deps(after, m) == target_deps(before, m).union(module_deps(config))
            &&& forall|x: Seq<char>| x != m ==> target_deps(after, x) == target_deps(before, x)
        },
    ensures
        forall|x: Seq<char>| #[trigger] has_key(after, x) <==> (has_key(t1, x) || modules_target(modules, j + 1, ext, x)),
        forall|x: Seq<char>| #[trigger] target_deps(after, x) == target_deps(t1, x).union(
            modules_deps(modules, j + 1, entries, root, ext, encoding, x),
        ),
{
    let key = config.module_name@;
    let m = upper_camel_case(key);
    assert forall|x: Seq<char>| #[trigger] has_key(after, x) <==> (has_key(t1, x) || modules_target(modules, j + 1, ext, x)) by {
        if modules_target(modules, j + 1, ext, x) && !modules_target(modules, j, ext, x) {
            let i = choose|i: int|
                0 <= i < j + 1 && !has_key(ext, (#[trigger] modules[i]).0.config().module_name@) && x == upper_camel_case(
                    modules[i].0.config().module_name@,
                );
            assert(i == j);
        }
        if modules_target(modules, j, ext, x) {
            let i = choose|i: int|
                0 <= i < j && !has_key(ext, (#[trigger] modules[i]).0.config().module_name@) && x == upper_camel_case(
                    modules[i].0.config().module_name@,
                );
            assert(0 <= i < j + 1);
        }
        if !has_key(ext, key) && x == m {
            assert(0 <= j < j + 1 && !has_key(ext, modules[j].0.config().module_name@));
        }
    }
    assert forall|x: Seq<char>| #[trigger] target_deps(after, x) == target_deps(t1, x).union(
        modules_deps(modules, j + 1, entries, root, ext, encoding, x),
    ) by {
        let a = modules_deps(modules, j, entries, root, ext, encoding, x);
        let b = modules_deps(modules, j + 1, entries, root, ext, encoding, x);
        let s = split_module_deps(entries, root, key, encoding);
        if !has_key(ext, key) && x == m {
            assert forall|d: Seq<char>| #[trigger] b.contains(d) <==> (a.contains(d) || s.contains(d)) by {
                if b.contains(d) {
                    let i = choose|i: int|
                        0 <= i < j + 1 && !has_key(ext, (#[trigger] modules[i]).0.config().module_name@) && x == upper_camel_case(
                            modules[i].0.config().module_name@,
                        ) && split_module_deps(entries, root, modules[i].0.config().module_name@, encoding).contains(d);
                    if i < j {
                        assert(a.contains(d));
                    }
                }
                if a.contains(d) {
                    let i = choose|i: int|
                        0 <= i < j && !has_key(ext, (#[trigger] modules[i]).0.config().module_name@) && x == upper_camel_case(
                            modules[i].0.config().module_name@,
                        ) && split_module_deps(entries, root, modules[i].0.config().module_name@, encoding).contains(d);
                    assert(0 <= i < j + 1);
                }
                if s.contains(d) {
                    assert(0 <= j < j + 1 && !has_key(ext, modules[j].0.config().module_name@));
                }
            }
            assert(b =~= a.union(s));
            assert(target_deps(after, x) =~= target_deps(t1, x).union(b));
        } else {
            assert forall|d: Seq<char>| #[trigger] b.contains(d) <==> a.contains(d) by {
                if b.contains(d) {
                    let i = choose|i: int|
                        0 <= i < j + 1 && !has_key(ext, (#[trigger] modules[i]).0.config().module_name@) && x == upper_camel_case(
                            modules[i].0.config().module_name@,
                        ) && split_module_deps(entries, root, modules[i].0.config().module_name@, encoding).contains(d);
                    assert(i != j);
                }
                if a.contains(d) {
                    let i = choose|i: int|
                        0 <= i < j && !has_key(ext, (#[trigger] modules[i]).0.config().module_name@) && x == upper_camel_case(
                            modules[i].0.config().module_name@,
                        ) && split_module_deps(entries, root, modules[i].0.config().module_name@, encoding).contains(d);
                    assert(0 <= i < j + 1);
                }
            }
            assert(b =~= a);
        }
    }
}

/// After every split module: the targets and dependencies of the modules are those that
/// the registry's modules give.
proof fn lemma_generate_end(
    modules: Seq<(Module, Registry)>,
    entries: Seq<(QualifiedTypeNameV, ContainerFormatV)>,
    root: Seq<char>,
    ext: Seq<(Seq<char>, ExternalPackageV)>,
    encoding: Encoding,
)
    requires
        forall|k: Seq<char>|
            has_module(entries, root, k) <==> exists|m: int| 0 <= m < modules.len() && (#[trigger] modules[m]).0.config().module_name@ == k,
    ensures
        forall|x: Seq<char>| #[trigger] modules_target(modules, modules.len() as int, ext, x) <==> generated_target(entries, root, ext, x),
        forall|x: Seq<char>| #[trigger] modules_deps(modules, modules.len() as int, entries, root, ext, encoding, x) == generated_deps(
            entries,
            root,
            ext,
            encoding,
            x,
        ),
{
    let n = modules.len() as int;
    assert forall|x: Seq<char>| #[trigger] modules_target(modules, n, ext, x) <==> generated_target(entries, root, ext, x) by {
        if modules_target(modules, n, ext, x) {
            let i = choose|i: int|
                0 <= i < n && !has_key(ext, (#[trigger] modules[i]).0.config().module_name@) && x == upper_camel_case(
                    modules[i].0.config().module_name@,
                );
            assert(has_module(entries, root, modules[i].0.config().module_name@));
        }
        if generated_target(entries, root, ext, x) {
            let k = choose|k: Seq<char>| #[trigger] has_module(entries, root, k) && !has_key(ext, k) && x == upper_camel_case(k);
            let i = choose|i: int| 0 <= i < n && (#[trigger] modules[i]).0.config().module_name@ == k;
        }
    }
    assert forall|x: Seq<char>| #[trigger] modules_deps(modules, n, entries, root, ext, encoding, x) == generated_deps(
        entries,
        root,
        ext,
        encoding,
        x,
    ) by {
        let a = modules_deps(modules, n, entries, root, ext, encoding, x);
        let g = generated_deps(entries, root, ext, encoding, x);
        assert forall|d: Seq<char>| #[trigger] a.contains(d) <==> g.contains(d) by {
            if a.contains(d) {
                let i = choose|i: int|
                    0 <= i < n && !has_key(ext, (#[trigger] modules[i]).0.config().module_name@) && x == upper_camel_case(
                        modules[i].0.config().module_name@,
                    ) && split_module_deps(entries, root, modules[i].0.config().module_name@, encoding).contains(d);
                assert(has_module(entries, root, modules[i].0.config().module_name@));
            }
            if g.contains(d) {
                let k = choose|k: Seq<char>|
                    #[trigger] has_module(entries, root, k) && !has_key(ext, k) && x == upper_camel_case(k)
                        && split_module_deps(entries, root, k, encoding).contains(d);
                let i = choose|i: int| 0 <= i < n && (#[trigger] modules[i]).0.config().module_name@ == k;
            }
        }
        assert(a =~= g);
    }
}

impl Installer {
    /// Records the Serde runtime as a target without dependencies.
    pub fn record_serde_runtime(&mut self)
        ensures
            final(self).package_name == old(self).package_name,
            final(self).install_dir == old(self).install_dir,
            final(self).external_packages == old(self).external_packages,
            final(self).encoding == old(self).encoding,
            final(self).targets@ == insert_spec::<String, Vec<String>>(old(self).targets@, "Serde"@, Seq::<String>::empty()),
    {
        let empty: Vec<String> = Vec::new();
        assert(empty@ =~= Seq::<String>::empty());
        self.targets.insert(String::from_str("Serde"), empty);
    }

    /// Generates the package for a registry: the Serde runtime under an encoding, one
    /// source per module of the registry split by namespace (the root namespace taking
    /// the package's name) that no external package provides, and the manifest of the
    /// targets recorded along the way.
    pub fn generate(&mut self, registry: &Registry) -> (p: SwiftPackage)
        requires
            old(self).encoding != Encoding::Bcs,
        ensures
            final(self).package_name == old(self).package_name,
            final(self).install_dir == old(self).install_dir,
            final(self).external_packages == old(self).external_packages,
            final(self).encoding == old(self).encoding,
            p.serde_runtime == (old(self).encoding != Encoding::Plain),
            p.manifest@ == installer_manifest(&*final(self)),
            p.modules@.len() == p.sources.len(),
            forall|i: int| 0 <= i < p.sources.len() ==> {
                &&& has_module(registry@, old(self).package_name@, #[trigger] p.modules@[i])
                &&& !has_key(old(self).external_packages@, p.modules@[i])
                &&& is_module_source(p.sources@[i], p.modules@[i], registry@, old(self).package_name@, old(self).encoding)
            },
            forall|k: Seq<char>| has_module(registry@, old(self).package_name@, k) && !has_key(old(self).external_packages@, k)
                ==> #[trigger] p.modules@.contains(k),
            forall|x: Seq<char>| #[trigger] has_key(final(self).targets@, x) <==> {
                ||| has_key(old(self).targets@, x)
                ||| old(self).encoding != Encoding::Plain && x == "Serde"@
                ||| generated_target(registry@, old(self).package_name@, old(self).external_packages@, x)
            },
            forall|x: Seq<char>| #[trigger] target_deps(final(self).targets@, x) == runtime_deps(old(self).targets@, old(self).encoding, x).union(
                generated_deps(registry@, old(self).package_name@, old(self).external_packages@, old(self).encoding, x),
            ),
    {
        let ghost pkg = self.package_name@;
        let ghost ext = self.external_packages@;
        let ghost enc = self.encoding;
        let _ = self.targets.len();
        let ghost t0 = self.targets@;
        let serde_runtime = self.encoding.is_json() || self.encoding.is_bincode();
        if serde_runtime {
            self.record_serde_runtime();
        }
        let _ = self.targets.len();
        let ghost t1 = self.targets@;
        proof {
            reveal_strlit("Serde");
            if serde_runtime {
                lemma_insert_spec::<String, Vec<String>>(t0, "Serde"@, Seq::<String>::empty());
                assert(strings_view(Seq::<String>::empty()).to_set() =~= Set::<Seq<char>>::empty());
                assert forall|x: Seq<char>| #[trigger] target_deps(t1, x) == runtime_deps(t0, enc, x) by {
                    lemma_insert_lookup::<String, Vec<String>>(t0, "Serde"@, Seq::<String>::empty(), x);
                }
            }
        }
        let modules = split(self.package_name.as_str(), registry);
        let mut sources: Vec<SwiftSource> = Vec::new();
        let ghost mut keys: Seq<Seq<char>> = Seq::empty();
        let mut j: usize = 0;
        while j < modules.len()
            invariant
                j <= modules.len(),
                self.package_name@ == pkg,
                self.external_packages@ == ext,
                self.encoding == old(self).encoding,
                self.encoding != Encoding::Bcs,
                self.package_name == old(self).package_name,
                self.install_dir == old(self).install_dir,
                self.external_packages == old(self).external_packages,
                forall|m: int| 0 <= m < modules.len() ==> is_split_module(&(#[trigger] modules@[m]).0, &modules@[m].1, registry@, pkg),
                forall|k: Seq<char>| has_module(registry@, pkg, k) <==> exists|m: int| 0 <= m < modules.len() && (#[trigger] modules@[m]).0.config().module_name@ == k,
                keys.len() == sources.len(),
                forall|i: int| 0 <= i < keys.len() ==> has_module(registry@, pkg, #[trigger] keys[i]) && !has_key(ext, keys[i]),
                forall|i: int| 0 <= i < keys.len() ==> is_module_source(#[trigger] sources@[i], keys[i], registry@, pkg, self.encoding),
                forall|m: int| 0 <= m < j && !has_key(ext, (#[trigger] modules@[m]).0.config().module_name@) ==> keys.contains(modules@[m].0.config().module_name@),
                enc == self.encoding,
                forall|x: Seq<char>| #[trigger] has_key(self.targets@, x) <==> (has_key(t1, x) || modules_target(modules@, j as int, ext, x)),
                forall|x: Seq<char>| #[trigger] target_deps(self.targets@, x) == target_deps(t1, x).union(
                    modules_deps(modules@, j as int, registry@, pkg, ext, enc, x),
                ),
            decreases modules.len() - j,
        {
            let (module, module_registry) = &modules[j];
            let ghost key = module.config().module_name@;
            let config = module.config().duplicate().with_encoding(self.encoding);
            let ghost tj = self.targets@;
            let registered = self.register_module(&config);
            proof {
                assert(modules@[j as int].0.config().module_name@ == key);
                assert(has_module(registry@, pkg, key));
                lemma_split_module_deps(config, &modules@[j as int].0, &modules@[j as int].1, registry@, pkg);
                lemma_generate_step(modules@, j as int, registry@, pkg, ext, enc, t1, tj, self.targets@, config);
            }
            match registered {
                Some(name) => {
                    let mut full = config.duplicate();
                    full.external_packages = self.external_packages.duplicate();
                    let generator = CodeGenerator::new(&full);
                    let contents = generator.output(module_registry);
                    let source = SwiftSource {
                        directory: concat("Sources/", name.as_str()),
                        file: concat(name.as_str(), ".swift"),
                        contents,
                    };
                    proof {
                        let d = full.external_definitions@;
                        assert(is_split_module(&modules@[j as int].0, &modules@[j as int].1, registry@, pkg));
                        lemma_external_namespaces(defs_view(d), entries_refs(module_entries(registry@, pkg, key)), key);
                        assert(definition_namespaces(d) =~= defs_view(d).map_values(|e: (Seq<char>, Seq<Seq<char>>)| e.0));
                        assert(is_module_source(source, key, registry@, pkg, self.encoding));
                    }
                    let ghost old_keys = keys;
                    sources.push(source);
                    proof {
                        keys = keys.push(key);
                        assert(keys[keys.len() - 1] == key);
                        assert forall|i: int| 0 <= i < keys.len() implies is_module_source(#[trigger] sources@[i], keys[i], registry@, pkg, self.encoding) by {
                            if i < old_keys.len() {
                                assert(keys[i] == old_keys[i]);
                            }
                        }
                        assert forall|m: int| 0 <= m < j + 1 && !has_key(ext, (#[trigger] modules@[m]).0.config().module_name@) implies keys.contains(modules@[m].0.config().module_name@) by {
                            if m < j {
                                let i = choose|i: int| 0 <= i < old_keys.len() && old_keys[i] == modules@[m].0.config().module_name@;
                                assert(keys[i] == old_keys[i]);
                            } else {
                                assert(keys[keys.len() - 1] == key);
                            }
                        }
                    }
                },
                None => {
                    proof {
                        assert forall|m: int| 0 <= m < j + 1 && !has_key(ext, (#[trigger] modules@[m]).0.config().module_name@) implies keys.contains(modules@[m].0.config().module_name@) by {
                            assert(m != j);
                        }
                    }
                },
            }
            j = j + 1;
        }
        proof {
            assert forall|k: Seq<char>| has_module(registry@, pkg, k) && !has_key(ext, k) implies keys.contains(k) by {
                let m = choose|m: int| 0 <= m < modules.len() && (#[trigger] modules@[m]).0.config().module_name@ == k;
            }
            lemma_generate_end(modules@, registry@, pkg, ext, enc);
        }
        let manifest = self.make_manifest(self.package_name.as_str());
        SwiftPackage { serde_runtime, sources, manifest, modules: Ghost(keys) }
    }
}

} // verus!

verus! {

/// A sequence with one more element holds what the shorter one holds and that element.
proof fn lemma_push_contains<A>(s: Seq<A>, a: A, x: A)
    ensures
        s.push(a).contains(x) <==> (s.contains(x) || a == x),
{
    if s.push(a).contains(x) {
        let i = choose|i: int| 0 <= i < s.len() + 1 && s.push(a)[i] == x;
        if i < s.len() {
            assert(s[i] == x);
        }
    }
    if s.contains(x) {
        let i = choose|i: int| 0 <= i < s.len() && s[i] == x;
        assert(s.push(a)[i] == x);
    }
    if a == x {
        assert(s.push(a)[s.len() as int] == x);
    }
}

/// A name is top-level exactly when it is one of `names`, is not provided by an external
/// package, and is no target's dependency.
pub proof fn lemma_top_level_contains(names: Seq<Seq<char>>, external: Set<Seq<char>>, deps: Set<Seq<char>>, x: Seq<char>)
    ensures
        top_level(names, external, deps).contains(x) <==> (names.contains(x) && !external.contains(x) && !deps.contains(x)),
    decreases names.len(),
{
    if names.len() > 0 {
        let rest = names.drop_last();
        lemma_top_level_contains(rest, external, deps, x);
        lemma_push_contains(rest, names.last(), x);
        assert(rest.push(names.last()) =~= names);
        lemma_push_contains(top_level(rest, external, deps), names.last(), x);
    }
}

/// The recorded dependencies, all targets together: a name is among them exactly when
/// some target records it.
pub proof fn lemma_all_recorded_contains(t: Seq<(Seq<char>, Seq<String>)>, x: Seq<char>)
    ensures
        all_recorded(t).contains(x) <==> exists|i: int| 0 <= i < t.len() && strings_view((#[trigger] t[i]).1).contains(x),
    decreases t.len(),
{
    if t.len() > 0 {
        let rest = t.drop_last();
        let last = strings_view(t.last().1);
        lemma_all_recorded_contains(rest, x);
        let a = all_recorded(rest);
        assert((a + last).contains(x) <==> (a.contains(x) || last.contains(x))) by {
            if (a + last).contains(x) {
                let k = choose|k: int| 0 <= k < (a + last).len() && (a + last)[k] == x;
                if k < a.len() {
                    assert(a[k] == x);
                } else {
                    assert(last[k - a.len()] == x);
                }
            }
            if a.contains(x) {
                let k = choose|k: int| 0 <= k < a.len() && a[k] == x;
                assert((a + last)[k] == x);
            }
            if last.contains(x) {
                let k = choose|k: int| 0 <= k < last.len() && last[k] == x;
                assert((a + last)[a.len() + k] == x);
            }
        }
        if exists|i: int| 0 <= i < t.len() && strings_view((#[trigger] t[i]).1).contains(x) {
            let i = choose|i: int| 0 <= i < t.len() && strings_view((#[trigger] t[i]).1).contains(x);
            if i < rest.len() {
                assert(rest[i] == t[i]);
            }
        }
        if exists|i: int| 0 <= i < rest.len() && strings_view((#[trigger] rest[i]).1).contains(x) {
            let i = choose|i: int| 0 <= i < rest.len() && strings_view((#[trigger] rest[i]).1).contains(x);
            assert(rest[i] == t[i]);
        }
        assert(t.last() == t[t.len() - 1]);
    }
}

/// The target entries are those of the names that no external package provides, in order,
/// each with its dependencies.
pub proof fn lemma_target_blocks_filter(names: Seq<Seq<char>>, t: Seq<(Seq<char>, Seq<String>)>, package: Seq<char>, external: Set<Seq<char>>)
    ensures
        target_blocks(names, t, package, external) == names.filter(|n: Seq<char>| !external.contains(n)).map_values(
            |n: Seq<char>| target_block(n, deps_of(t, package, n)),
        ),
    decreases names.len(),
{
    reveal(Seq::filter);
    if names.len() > 0 {
        lemma_target_blocks_filter(names.drop_last(), t, package, external);
        let f = names.drop_last().filter(|n: Seq<char>| !external.contains(n));
        assert(f.push(names.last()).map_values(|n: Seq<char>| target_block(n, deps_of(t, package, n))) =~= f.map_values(
            |n: Seq<char>| target_block(n, deps_of(t, package, n)),
        ).push(target_block(names.last(), deps_of(t, package, names.last()))));
    } else {
        assert(names.filter(|n: Seq<char>| !external.contains(n)).map_values(|n: Seq<char>| target_block(n, deps_of(t, package, n))) =~= Seq::<
            Seq<char>,
        >::empty());
    }
}

/// The Swift manifest of targets `t`, package `package` and external packages `e`:
/// - there is a target entry for each target name that no external package provides, in
///   name order, with its dependencies, and no other entry;
/// - the package's own target depends on every dependency that some target records, and
///   on nothing else (in upper camel case);
/// - the library's targets are the target names that no external package provides and no
///   target depends on, or the package alone if there is none;
/// - there is one package dependency per external package, so the `dependencies` section
///   is there exactly when there are external packages.
pub proof fn lemma_swift_manifest_parts(t: Seq<(Seq<char>, Seq<String>)>, package: Seq<char>, e: Seq<(Seq<char>, ExternalPackageV)>)
    ensures
        ({
            let names = sorted_texts(target_names(t, package));
            let ext = external_names(e);
            &&& target_blocks(names, t, package, ext) == names.filter(|n: Seq<char>| !ext.contains(n)).map_values(
                |n: Seq<char>| target_block(n, deps_of(t, package, n)),
            )
            &&& forall|x: Seq<char>| #[trigger]
                deps_of(t, package, upper_camel_case(package)).contains(x) <==> exists|i: int, k: int|
                    0 <= i < t.len() && 0 <= k < t[i].1.len() && x == upper_camel_case(#[trigger] t[i].1[k]@)
            &&& forall|x: Seq<char>| #[trigger]
                library_targets(t, package, e).contains(x) <==> if top_level(names, ext, all_deps(t, package)).len() == 0 {
                    x == package
                } else {
                    names.contains(x) && !ext.contains(x) && !all_deps(t, package).contains(x)
                }
            &&& package_texts(e).len() == e.len()
        }),
{
    let names = sorted_texts(target_names(t, package));
    let ext = external_names(e);
    lemma_target_blocks_filter(names, t, package, ext);
    assert forall|x: Seq<char>| #[trigger]
        deps_of(t, package, upper_camel_case(package)).contains(x) <==> exists|i: int, k: int|
            0 <= i < t.len() && 0 <= k < t[i].1.len() && x == upper_camel_case(#[trigger] t[i].1[k]@) by {
        let r = all_recorded(t);
        if deps_of(t, package, upper_camel_case(package)).contains(x) {
            let k = choose|k: int| 0 <= k < r.len() && x == upper_camel_case(#[trigger] r[k]);
            assert(r.contains(r[k]));
            lemma_all_recorded_contains(t, r[k]);
            let i = choose|i: int| 0 <= i < t.len() && strings_view((#[trigger] t[i]).1).contains(r[k]);
            let m = choose|m: int| 0 <= m < strings_view(t[i].1).len() && strings_view(t[i].1)[m] == r[k];
            assert(strings_view(t[i].1)[m] == t[i].1[m]@);
        }
        if exists|i: int, k: int| 0 <= i < t.len() && 0 <= k < t[i].1.len() && x == upper_camel_case(#[trigger] t[i].1[k]@) {
            let (i, k) = choose|i: int, k: int| 0 <= i < t.len() && 0 <= k < t[i].1.len() && x == upper_camel_case(#[trigger] t[i].1[k]@);
            let y = t[i].1[k]@;
            assert(strings_view(t[i].1)[k] == y);
            assert(strings_view(t[i].1).contains(y));
            lemma_all_recorded_contains(t, y);
            let m = choose|m: int| 0 <= m < r.len() && r[m] == y;
            assert(x == upper_camel_case(r[m]));
        }
    }
    assert forall|x: Seq<char>| #[trigger]
        library_targets(t, package, e).contains(x) <==> if top_level(names, ext, all_deps(t, package)).len() == 0 {
            x == package
        } else {
            names.contains(x) && !ext.contains(x) && !all_deps(t, package).contains(x)
        } by {
        lemma_top_level_contains(names, ext, all_deps(t, package), x);
        if top_level(names, ext, all_deps(t, package)).len() == 0 {
            assert(seq![package].contains(x) <==> x == package) by {
                if x == package {
                    assert(seq![package][0] == x);
                }
            }
        }
    }
}

} // verus!
