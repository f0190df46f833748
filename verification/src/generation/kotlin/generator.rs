//! Kotlin code generator: writes one Kotlin source file for a registry.
use vstd::prelude::*;

use crate::generation::config::{registry_needs, CodeGeneratorConfig, Encoding, Feature, PackageLocation, PackageLocationV};
use crate::generation::indent::{put_newline, unit_of, IndentConfig, IndentedWriter, WriterState};
use crate::generation::kotlin::emitter::{kt_container, kt_container_supported, kt_module, write_container, Kotlin};
use crate::generation::module::{entries_refs, lemma_entries_refs_names, renamed_refs, Module};
use crate::generation::Emitter;
use crate::reflection::format::{ContainerFormatV, NamespaceV, QualifiedTypeName, QualifiedTypeNameV, Registry};
use crate::reflection::visit::{container_names, format_names, formats_names, lemma_registry_names_agree, lemma_registry_names_shape, same_shape, map_registry_names, nameds_names, registry_names, variants_names, TypeNameMap};
use crate::generation::kotlin::emitter::{all_unit, kt_deserializable, kt_fields_deserializable, kt_formats_deserializable, kt_variant_deserializable, kt_variants_deserializable};
use crate::reflection::format::{lemma_formats_view, seq_view, ContainerFormat, Format, FormatV, Named, NamedV, VariantFormat, VariantFormatV};
use crate::util::sorted_map::{has_key, map_lookup};
use crate::util::text::{after_last, last_segment, str_eq};

verus! {

/// The fully qualified Kotlin name of a type referenced from the module of `config`:
/// - a type of a namespace whose external package is a local path `p` lives in `p.ns`;
/// - a type of a namespace `ns` with external definitions, other than the module's own
///   (last) namespace, lives in `module.ns`;
/// - any other type (of the root namespace, of the module's own namespace, or of a
///   namespace without external definitions) lives in the module.
pub open spec fn kotlin_qualified(config: CodeGeneratorConfig, q: QualifiedTypeNameV) -> QualifiedTypeNameV {
    let module = config.module_name@;
    match q.namespace {
        NamespaceV::Root => QualifiedTypeNameV { namespace: NamespaceV::Named(module), name: q.name },
        NamespaceV::Named(ns) => {
            let path = match map_lookup(config.external_packages@, ns) {
                Some(p) => match p.location {
                    PackageLocationV::Path(path) => Some(path),
                    PackageLocationV::Url(_) => None,
                },
                None => None,
            };
            match path {
                Some(path) => QualifiedTypeNameV { namespace: NamespaceV::Named(path + "."@ + ns), name: q.name },
                None => if has_key(config.external_definitions@, ns) && ns != after_last(module, '.') {
                    QualifiedTypeNameV { namespace: NamespaceV::Named(module + "."@ + ns), name: q.name }
                } else {
                    QualifiedTypeNameV { namespace: NamespaceV::Named(module), name: q.name }
                },
            }
        },
    }
}

/// The renaming of type names for the module of a configuration.
pub struct KotlinTypeNames<'a> {
    pub config: &'a CodeGeneratorConfig,
}

impl<'a> TypeNameMap for KotlinTypeNames<'a> {
    open spec fn map_name(&self, q: QualifiedTypeNameV) -> QualifiedTypeNameV {
        kotlin_qualified(*self.config, q)
    }

    fn apply(&self, q: &QualifiedTypeName) -> (r: QualifiedTypeName) {
        let config = self.config;
        match &q.namespace {
            crate::reflection::format::Namespace::Named(namespace) => {
                let external_path: Option<String> = match config.external_packages.get(namespace) {
                    Some(package) => match &package.location {
                        PackageLocation::Path(path) => {
                            let mut full = path.clone();
                            full.append(".");
                            full.append(namespace.as_str());
                            Some(full)
                        },
                        PackageLocation::Url(_) => None,
                    },
                    None => None,
                };
                match external_path {
                    Some(full) => QualifiedTypeName::namespaced(full, q.name.clone()),
                    None => {
                        let leaf = last_segment(config.module_name(), '.');
                        if config.external_definitions.contains_key(namespace) && !str_eq(namespace.as_str(), leaf) {
                            let mut full = config.module_name.clone();
                            full.append(".");
                            full.append(namespace.as_str());
                            QualifiedTypeName::namespaced(full, q.name.clone())
                        } else {
                            QualifiedTypeName::namespaced(config.module_name.clone(), q.name.clone())
                        }
                    },
                }
            },
            crate::reflection::format::Namespace::Root => QualifiedTypeName::namespaced(
                config.module_name.clone(),
                q.name.clone(),
            ),
        }
    }
}

/// Main configuration object for code generation in Kotlin.
pub struct CodeGenerator<'a> {
    pub config: &'a CodeGeneratorConfig,
}

/// Whether the Kotlin emitter supports every container of the registry under `encoding`.
pub open spec fn kt_registry_supported(encoding: Encoding, r: Seq<(QualifiedTypeNameV, ContainerFormatV)>) -> bool {
    forall|i: int| 0 <= i < r.len() ==> kt_container_supported(encoding, #[trigger] r[i].1)
}

/// The type definitions, separated by empty lines.
pub open spec fn kt_containers(w: WriterState, encoding: Encoding, r: Seq<(QualifiedTypeNameV, ContainerFormatV)>) -> WriterState
    decreases r.len(),
{
    if r.len() == 0 {
        w
    } else {
        let w = kt_containers(w, encoding, r.drop_last());
        let w = if r.len() > 1 { put_newline(w) } else { w };
        kt_container(w, encoding, r.last().0.name, r.last().1)
    }
}

impl<'a> CodeGenerator<'a> {
    /// A Kotlin code generator for the given configuration.
    pub fn new(config: &'a CodeGeneratorConfig) -> (g: CodeGenerator<'a>)
        ensures
            g.config == config,
    {
        CodeGenerator { config }
    }

    /// Qualifies every type name inside the registry's containers for the module of
    /// `config` (see [`kotlin_qualified`]). The registry itself is not changed.
    pub fn update_qualified_names(config: &CodeGeneratorConfig, registry: &Registry) -> (r: Registry)
        ensures
            r@ == registry_names(registry@, KotlinTypeNames { config }),
    {
        map_registry_names(registry, &KotlinTypeNames { config })
    }
}


/// Qualifying the type names of a registry keeps its entries, in order, under the same
/// names and with the same shapes; each type name that the containers refer to is
/// qualified in place, and keeps its name: only its namespace changes.
pub proof fn lemma_kotlin_qualified_names(config: &CodeGeneratorConfig, registry: Seq<(QualifiedTypeNameV, ContainerFormatV)>)
    ensures
        ({
            let r = registry_names(registry, KotlinTypeNames { config });
            &&& r.len() == registry.len()
            &&& forall|i: int| 0 <= i < registry.len() ==> (#[trigger] r[i]).0 == registry[i].0 && same_shape(registry[i].1, r[i].1)
            &&& entries_refs(r) == entries_refs(registry).map_values(|q: QualifiedTypeNameV| kotlin_qualified(*config, q))
            &&& forall|j: int| 0 <= j < entries_refs(registry).len() ==> (#[trigger] entries_refs(r)[j]).name == entries_refs(registry)[j].name
        }),
{
    let m = KotlinTypeNames { config };
    lemma_registry_names_shape(registry, m);
    lemma_entries_refs_names(registry, m);
    assert(renamed_refs(entries_refs(registry), m) =~= entries_refs(registry).map_values(|q: QualifiedTypeNameV| kotlin_qualified(*config, q)));
}


/// Each format of `formats_names(s, m)` is the corresponding format of `s`, mapped.
pub proof fn lemma_formats_names_index<M: TypeNameMap>(s: Seq<FormatV>, m: M)
    ensures
        formats_names(s, m).len() == s.len(),
        forall|i: int| 0 <= i < s.len() ==> #[trigger] formats_names(s, m)[i] == format_names(s[i], m),
    decreases s.len(),
{
    if s.len() > 0 {
        lemma_formats_names_index(s.drop_last(), m);
        assert forall|i: int| 0 <= i < s.len() implies #[trigger] formats_names(s, m)[i] == format_names(s[i], m) by {
            if i < s.len() - 1 {
                assert(s.drop_last()[i] == s[i]);
            }
        }
    }
}

/// Renaming types keeps a format deserializable, and keeps it not.
pub proof fn lemma_deserializable_names<M: TypeNameMap>(f: FormatV, m: M)
    ensures
        kt_deserializable(format_names(f, m)) == kt_deserializable(f),
    decreases f,
{
    if let FormatV::Tuple(s) = f {
        lemma_formats_names_index(s, m);
        if s.len() == 1 {
            lemma_deserializable_names(s[0], m);
        }
    }
}

pub proof fn lemma_formats_deserializable_names<M: TypeNameMap>(s: Seq<FormatV>, m: M)
    ensures
        kt_formats_deserializable(formats_names(s, m)) == kt_formats_deserializable(s),
{
    lemma_formats_names_index(s, m);
    let t = formats_names(s, m);
    assert forall|i: int| 0 <= i < s.len() implies kt_deserializable(#[trigger] t[i]) == kt_deserializable(s[i]) by {
        lemma_deserializable_names(s[i], m);
    }
    if kt_formats_deserializable(s) {
        assert forall|i: int| 0 <= i < t.len() implies kt_deserializable(#[trigger] t[i]) by {
            assert(kt_deserializable(s[i]));
        }
    }
    if kt_formats_deserializable(t) {
        assert forall|i: int| 0 <= i < s.len() implies kt_deserializable(#[trigger] s[i]) by {
            assert(kt_deserializable(t[i]));
        }
    }
}

pub proof fn lemma_fields_deserializable_names<M: TypeNameMap>(fs: Seq<NamedV<FormatV>>, m: M)
    ensures
        kt_fields_deserializable(nameds_names(fs, m)) == kt_fields_deserializable(fs),
{
    let t = nameds_names(fs, m);
    assert forall|i: int| 0 <= i < fs.len() implies kt_deserializable(#[trigger] t[i].value) == kt_deserializable(fs[i].value) by {
        lemma_deserializable_names(fs[i].value, m);
    }
    if kt_fields_deserializable(fs) {
        assert forall|i: int| 0 <= i < t.len() implies kt_deserializable(#[trigger] t[i].value) by {
            assert(kt_deserializable(fs[i].value));
        }
    }
    if kt_fields_deserializable(t) {
        assert forall|i: int| 0 <= i < fs.len() implies kt_deserializable(#[trigger] fs[i].value) by {
            assert(kt_deserializable(t[i].value));
        }
    }
}

/// Renaming types keeps a container supported, and keeps it not.
pub proof fn lemma_supported_names<M: TypeNameMap>(encoding: Encoding, c: ContainerFormatV, m: M)
    ensures
        kt_container_supported(encoding, container_names(c, m)) == kt_container_supported(encoding, c),
{
    match c {
        ContainerFormatV::NewTypeStruct(f, _) => {
            lemma_deserializable_names(f, m);
        },
        ContainerFormatV::TupleStruct(s, _) => {
            lemma_formats_deserializable_names(s, m);
        },
        ContainerFormatV::Struct(fs, _) => {
            lemma_fields_deserializable_names(fs, m);
        },
        ContainerFormatV::Enum(vs, _) => {
            let ws = variants_names(vs, m);
            assert forall|i: int| 0 <= i < vs.len() implies (#[trigger] ws[i]).1.value == VariantFormatV::Unit <==> vs[i].1.value == VariantFormatV::Unit by {
            }
            if all_unit(vs) {
                assert forall|i: int| 0 <= i < ws.len() implies (#[trigger] ws[i]).1.value == VariantFormatV::Unit by {
                    assert(vs[i].1.value == VariantFormatV::Unit);
                }
            }
            if all_unit(ws) {
                assert forall|i: int| 0 <= i < vs.len() implies (#[trigger] vs[i]).1.value == VariantFormatV::Unit by {
                    assert(ws[i].1.value == VariantFormatV::Unit);
                }
            }
            assert(all_unit(ws) == all_unit(vs));
            assert forall|i: int| 0 <= i < vs.len() implies kt_variant_deserializable(#[trigger] ws[i].1.value) == kt_variant_deserializable(vs[i].1.value) by {
                match vs[i].1.value {
                    VariantFormatV::NewType(f) => {
                        lemma_deserializable_names(f, m);
                    },
                    VariantFormatV::Tuple(s) => {
                        lemma_formats_deserializable_names(s, m);
                    },
                    VariantFormatV::Struct(fs) => {
                        lemma_fields_deserializable_names(fs, m);
                    },
                    _ => {},
                }
            }
            if kt_variants_deserializable(vs) {
                assert forall|i: int| 0 <= i < ws.len() implies kt_variant_deserializable(#[trigger] ws[i].1.value) by {
                    assert(kt_variant_deserializable(vs[i].1.value));
                }
            }
            if kt_variants_deserializable(ws) {
                assert forall|i: int| 0 <= i < vs.len() implies kt_variant_deserializable(#[trigger] vs[i].1.value) by {
                    assert(kt_variant_deserializable(ws[i].1.value));
                }
            }
            assert(kt_variants_deserializable(ws) == kt_variants_deserializable(vs));
        },
        _ => {},
    }
}

/// The Kotlin source file for a registry: the module header, then each type definition
/// with its type names qualified for the module, separated by empty lines.
pub open spec fn kt_output(config: CodeGeneratorConfig, r: Seq<(QualifiedTypeNameV, ContainerFormatV)>) -> Seq<char> {
    let w = WriterState { text: Seq::empty(), indentation: Seq::empty(), unit: unit_of(IndentConfig::Space(4)), at_line_start: true };
    let w = kt_module(w, config.module_name@, config.encoding, registry_needs(r, Feature::BigInt));
    kt_containers(w, config.encoding, registry_names(r, KotlinTypeNames { config: &config })).text
}


impl<'a> CodeGenerator<'a> {
    /// The Kotlin source file for `registry`: the module header, then each type
    /// definition, with type names qualified for the module.
    pub fn output(&self, registry: &Registry) -> (s: String)
        requires
            kt_registry_supported(self.config.encoding, registry@),
        ensures
            s@ == kt_output(*self.config, registry@),
    {
        let mut config = self.config.duplicate();
        config.update_from(registry);
        let updated = Self::update_qualified_names(self.config, registry);
        let mut w = IndentedWriter::new(IndentConfig::Space(4));
        let module = Module::new(&config);
        module.write(&mut w, Kotlin);
        let ghost start = w@;
        let ghost names = registry_names(registry@, KotlinTypeNames { config: self.config });
        let mut i: usize = 0;
        while i < updated.len()
            invariant
                i <= updated@.len(),
                updated@ == names,
                names == registry_names(registry@, KotlinTypeNames { config: self.config }),
                names.len() == registry@.len(),
                kt_registry_supported(self.config.encoding, registry@),
                config.encoding == self.config.encoding,
                w@ == kt_containers(start, self.config.encoding, names.take(i as int)),
            decreases updated@.len() - i,
        {
            if i > 0 {
                w.newline();
            }
            let (name, c) = updated.entry(i);
            proof {
                assert(names[i as int].1 == container_names(registry@[i as int].1, KotlinTypeNames { config: self.config }));
                assert(kt_container_supported(self.config.encoding, registry@[i as int].1));
                lemma_supported_names(self.config.encoding, registry@[i as int].1, KotlinTypeNames { config: self.config });
                assert(names.take(i + 1).drop_last() =~= names.take(i as int));
            }
            write_container(&mut w, config.encoding, name, c);
            i = i + 1;
        }
        assert(names.take(names.len() as int) =~= names);
        w.into_string()
    }
}


/// The Kotlin output depends on the module name, the encoding, the external definitions
/// and the external packages of the configuration alone.
pub proof fn lemma_kt_output_views(c1: CodeGeneratorConfig, c2: CodeGeneratorConfig, r: Seq<(QualifiedTypeNameV, ContainerFormatV)>)
    requires
        c1.module_name@ == c2.module_name@,
        c1.encoding == c2.encoding,
        c1.external_packages@ == c2.external_packages@,
        c1.external_definitions@ == c2.external_definitions@,
    ensures
        kt_output(c1, r) == kt_output(c2, r),
{
    lemma_registry_names_agree(r, KotlinTypeNames { config: &c1 }, KotlinTypeNames { config: &c2 });
}

} // verus!

verus! {

/// Whether a value of format `f` can be deserialized by the Kotlin emitter.
pub fn format_deserializable(f: &Format) -> (b: bool)
    ensures
        b == kt_deserializable(f@),
    decreases f,
{
    match f {
        Format::Option(_) | Format::Sequence(_) | Format::SetOf(_) | Format::MapOf { .. } | Format::TupleArray { .. } => false,
        Format::Tuple(v) => {
            proof {
                lemma_formats_view(v@);
            }
            if v.len() == 1 {
                format_deserializable(&v[0])
            } else {
                true
            }
        },
        _ => true,
    }
}

fn formats_deserializable(v: &Vec<Format>) -> (b: bool)
    ensures
        b == kt_formats_deserializable(seq_view(v@)),
{
    let mut i: usize = 0;
    while i < v.len()
        invariant
            i <= v.len(),
            forall|j: int| 0 <= j < i ==> kt_deserializable(#[trigger] seq_view(v@)[j]),
        decreases v.len() - i,
    {
        if !format_deserializable(&v[i]) {
            assert(!kt_deserializable(seq_view(v@)[i as int]));
            return false;
        }
        i = i + 1;
    }
    true
}

fn fields_deserializable(v: &Vec<Named<Format>>) -> (b: bool)
    ensures
        b == kt_fields_deserializable(seq_view(v@)),
{
    let mut i: usize = 0;
    while i < v.len()
        invariant
            i <= v.len(),
            forall|j: int| 0 <= j < i ==> kt_deserializable(#[trigger] seq_view(v@)[j].value),
        decreases v.len() - i,
    {
        if !format_deserializable(&v[i].value) {
            assert(!kt_deserializable(seq_view(v@)[i as int].value));
            return false;
        }
        i = i + 1;
    }
    true
}

/// Whether the Kotlin emitter supports a container under `encoding`.
pub fn container_supported(encoding: Encoding, c: &ContainerFormat) -> (b: bool)
    ensures
        b == kt_container_supported(encoding, c@),
{
    if !encoding.is_bincode() {
        return true;
    }
    match c {
        ContainerFormat::UnitStruct(_) => true,
        ContainerFormat::NewTypeStruct(f, _) => format_deserializable(f),
        ContainerFormat::TupleStruct(v, _) => formats_deserializable(v),
        ContainerFormat::Struct(fs, _) => fields_deserializable(fs),
        ContainerFormat::Enum(vs, _) => {
            let mut all_units = true;
            let mut ok = true;
            let mut i: usize = 0;
            while i < vs.len()
                invariant
                    i <= vs@.len(),
                    all_units == forall|j: int| 0 <= j < i ==> (#[trigger] vs@[j]).1.value == VariantFormatV::Unit,
                    ok == forall|j: int| 0 <= j < i ==> kt_variant_deserializable(#[trigger] vs@[j].1.value),
                decreases vs@.len() - i,
            {
                let (_k, v) = vs.entry(i);
                let here_ok = match &v.value {
                    VariantFormat::Unit => true,
                    VariantFormat::NewType(f) => format_deserializable(f),
                    VariantFormat::Tuple(fs) => formats_deserializable(fs),
                    VariantFormat::Struct(ns) => fields_deserializable(ns),
                };
                let here_unit = matches!(v.value, VariantFormat::Unit);
                proof {
                    assert(here_ok == kt_variant_deserializable(vs@[i as int].1.value));
                    assert(here_unit == (vs@[i as int].1.value == VariantFormatV::Unit));
                    assert((all_units && here_unit) == forall|j: int| 0 <= j < i + 1 ==> (#[trigger] vs@[j]).1.value == VariantFormatV::Unit) by {
                        if !(forall|j: int| 0 <= j < i + 1 ==> (#[trigger] vs@[j]).1.value == VariantFormatV::Unit) {
                            let j = choose|j: int| 0 <= j < i + 1 && !((#[trigger] vs@[j]).1.value == VariantFormatV::Unit);
                        }
                    }
                    assert((ok && here_ok) == forall|j: int| 0 <= j < i + 1 ==> kt_variant_deserializable(#[trigger] vs@[j].1.value)) by {
                        if !(forall|j: int| 0 <= j < i + 1 ==> kt_variant_deserializable(#[trigger] vs@[j].1.value)) {
                            let j = choose|j: int| 0 <= j < i + 1 && !kt_variant_deserializable(#[trigger] vs@[j].1.value);
                        }
                    }
                }
                all_units = all_units && here_unit;
                ok = ok && here_ok;
                i = i + 1;
            }
            all_units || ok
        },
    }
}

/// Whether the Kotlin emitter supports every container of the registry under `encoding`:
/// with Bincode, options, collections and arrays cannot be deserialized.
pub fn supports(encoding: Encoding, registry: &Registry) -> (b: bool)
    ensures
        b == kt_registry_supported(encoding, registry@),
{
    let mut i: usize = 0;
    while i < registry.len()
        invariant
            i <= registry@.len(),
            forall|j: int| 0 <= j < i ==> kt_container_supported(encoding, #[trigger] registry@[j].1),
        decreases registry@.len() - i,
    {
        let (_k, c) = registry.entry(i);
        if !container_supported(encoding, c) {
            assert(!kt_container_supported(encoding, registry@[i as int].1));
            return false;
        }
        i = i + 1;
    }
    true
}

} // verus!

verus! {

impl<'a> crate::generation::CodeGen<'a> for CodeGenerator<'a> {
    open spec fn supports(&self, registry: Seq<(QualifiedTypeNameV, ContainerFormatV)>) -> bool {
        kt_registry_supported(self.config.encoding, registry)
    }

    open spec fn generated(&self, registry: Seq<(QualifiedTypeNameV, ContainerFormatV)>) -> Seq<char> {
        kt_output(*self.config, registry)
    }

    open spec fn configuration(&self) -> CodeGeneratorConfig {
        *self.config
    }

    fn new(config: &'a CodeGeneratorConfig) -> (g: Self) {
        CodeGenerator { config }
    }

    fn write_output(&mut self, registry: &Registry) -> (s: String) {
        self.output(registry)
    }
}

} // verus!
