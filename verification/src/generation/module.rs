//! Modules: one per namespace, each with its own configuration.
use vstd::prelude::*;

use crate::generation::config::{CodeGeneratorConfig, Encoding, ExternalDefinitions};
use crate::reflection::format::{formats_view, lemma_formats_view, seq_view, ContainerFormat, ContainerFormatV, Format, FormatV, Named, NamedV, Namespace, NamespaceV, QualifiedTypeName, QualifiedTypeNameV, Registry, VariantFormat, VariantFormatV, VariantMap};
use crate::util::sorted_map::{has_key, key_index, keys_increasing, lemma_insert_spec, lemma_insert_spec_greatest, Duplicate, OrdKey, SortedMap};
use crate::reflection::visit::{container_names, format_names, formats_names, named_names, nameds_names, registry_names, variant_names, variants_names, TypeNameMap};
use crate::util::text::{lemma_lex_lt_irreflexive, lemma_sorted_unique, lex_lt, sorted_texts, str_eq};

verus! {

/// A generated module, identified by its configuration's module name.
#[derive(Debug)]
pub struct Module(CodeGeneratorConfig);

impl Module {
    pub fn new(config: &CodeGeneratorConfig) -> (m: Module)
        ensures
            m.config().module_name@ == config.module_name@,
            m.config().encoding == config.encoding,
            m.config().external_definitions@ == config.external_definitions@,
            m.config().external_packages@ == config.external_packages@,
            m.config().has_bigint == config.has_bigint,
            m.config().features@ == config.features@,
            m.config().c_style_enums == config.c_style_enums,
            m.config().comments@ == config.comments@,
            m.config().custom_code@ == config.custom_code@,
            m.config().package_manifest == config.package_manifest,
    {
        Module(config.duplicate())
    }

    pub closed spec fn spec_config(&self) -> &CodeGeneratorConfig {
        &self.0
    }

    #[verifier::when_used_as_spec(spec_config)]
    pub fn config(&self) -> (c: &CodeGeneratorConfig)
        ensures
            c == self.spec_config(),
    {
        &self.0
    }
}

} // verus!

verus! {

/// The module of a type: its namespace, or `root` for a type of the root namespace.
pub open spec fn module_key(q: QualifiedTypeNameV, root: Seq<char>) -> Seq<char> {
    match q.namespace {
        NamespaceV::Root => root,
        NamespaceV::Named(ns) => ns,
    }
}

/// The entries of a registry that belong to module `key`, in registry order.
pub open spec fn module_entries(
    entries: Seq<(QualifiedTypeNameV, ContainerFormatV)>,
    root: Seq<char>,
    key: Seq<char>,
) -> Seq<(QualifiedTypeNameV, ContainerFormatV)>
    decreases entries.len(),
{
    if entries.len() == 0 {
        entries
    } else {
        let rest = module_entries(entries.drop_last(), root, key);
        if module_key(entries.last().0, root) == key {
            rest.push(entries.last())
        } else {
            rest
        }
    }
}

/// Whether some entry of the registry belongs to module `key`.
pub open spec fn has_module(entries: Seq<(QualifiedTypeNameV, ContainerFormatV)>, root: Seq<char>, key: Seq<char>) -> bool {
    exists|i: int| 0 <= i < entries.len() && module_key(#[trigger] entries[i].0, root) == key
}

/// The type names that a format refers to, left to right.
pub open spec fn format_refs(f: FormatV) -> Seq<QualifiedTypeNameV>
    decreases f,
{
    match f {
        FormatV::TypeName(q) => seq![q],
        FormatV::Option(g) | FormatV::Sequence(g) | FormatV::SetOf(g) => format_refs(*g),
        FormatV::MapOf { key, value } => format_refs(*key) + format_refs(*value),
        FormatV::Tuple(s) => formats_refs(s),
        FormatV::TupleArray { content, .. } => format_refs(*content),
        _ => Seq::empty(),
    }
}

/// The type names that a sequence of formats refers to, left to right.
pub open spec fn formats_refs(s: Seq<FormatV>) -> Seq<QualifiedTypeNameV>
    decreases s,
{
    if s.len() == 0 {
        Seq::empty()
    } else {
        formats_refs(s.drop_last()) + format_refs(s.last())
    }
}

/// The type names that the fields refer to, in field order.
pub open spec fn nameds_refs(s: Seq<NamedV<FormatV>>) -> Seq<QualifiedTypeNameV>
    decreases s.len(),
{
    if s.len() == 0 {
        Seq::empty()
    } else {
        nameds_refs(s.drop_last()) + format_refs(s.last().value)
    }
}

/// The type names that a variant refers to.
pub open spec fn variant_refs(v: VariantFormatV) -> Seq<QualifiedTypeNameV> {
    match v {
        VariantFormatV::Unit => Seq::empty(),
        VariantFormatV::NewType(f) => format_refs(f),
        VariantFormatV::Tuple(s) => formats_refs(s),
        VariantFormatV::Struct(fs) => nameds_refs(fs),
    }
}

/// The type names that the variants refer to, in variant order.
pub open spec fn variants_refs(s: Seq<(u32, NamedV<VariantFormatV>)>) -> Seq<QualifiedTypeNameV>
    decreases s.len(),
{
    if s.len() == 0 {
        Seq::empty()
    } else {
        variants_refs(s.drop_last()) + variant_refs(s.last().1.value)
    }
}

/// The type names that a container refers to.
pub open spec fn container_refs(c: ContainerFormatV) -> Seq<QualifiedTypeNameV> {
    match c {
        ContainerFormatV::UnitStruct(_) => Seq::empty(),
        ContainerFormatV::NewTypeStruct(f, _) => format_refs(f),
        ContainerFormatV::TupleStruct(s, _) => formats_refs(s),
        ContainerFormatV::Struct(fs, _) => nameds_refs(fs),
        ContainerFormatV::Enum(vs, _) => variants_refs(vs),
    }
}

/// The type names that the containers of a registry refer to, in registry order.
pub open spec fn entries_refs(s: Seq<(QualifiedTypeNameV, ContainerFormatV)>) -> Seq<QualifiedTypeNameV>
    decreases s.len(),
{
    if s.len() == 0 {
        Seq::empty()
    } else {
        entries_refs(s.drop_last()) + container_refs(s.last().1)
    }
}

/// The names of the references into namespace `ns`, in order.
pub open spec fn names_in(refs: Seq<QualifiedTypeNameV>, ns: Seq<char>) -> Seq<Seq<char>>
    decreases refs.len(),
{
    if refs.len() == 0 {
        Seq::empty()
    } else {
        let rest = names_in(refs.drop_last(), ns);
        if refs.last().namespace == NamespaceV::Named(ns) {
            rest.push(refs.last().name)
        } else {
            rest
        }
    }
}

/// Whether some reference points into namespace `ns`.
pub open spec fn refers_to(refs: Seq<QualifiedTypeNameV>, ns: Seq<char>) -> bool {
    exists|i: int| 0 <= i < refs.len() && (#[trigger] refs[i]).namespace == NamespaceV::Named(ns)
}

/// The model of external definitions, each list of names taken by its text.
pub open spec fn defs_view(d: Seq<(Seq<char>, Seq<String>)>) -> Seq<(Seq<char>, Seq<Seq<char>>)> {
    d.map_values(|e: (Seq<char>, Seq<String>)| (e.0, seq_view(e.1)))
}

/// `d` lists, for each namespace other than `key` that `refs` point into, in namespace
/// order, the names referred to there, in reference order and with repetitions.
pub open spec fn is_external_definitions(d: Seq<(Seq<char>, Seq<Seq<char>>)>, refs: Seq<QualifiedTypeNameV>, key: Seq<char>) -> bool {
    &&& forall|i: int, j: int| 0 <= i < j < d.len() ==> lex_lt(#[trigger] d[i].0, #[trigger] d[j].0)
    &&& forall|ns: Seq<char>| has_key(d, ns) <==> (ns != key && refers_to(refs, ns))
    &&& forall|i: int| 0 <= i < d.len() ==> (#[trigger] d[i]).1 == names_in(refs, d[i].0)
}

/// What `split` makes of module `key`: a configuration named `key`, with no encoding,
/// package, feature, option, comment or custom code set (a package manifest asked for), whose external definitions are those of the types of
/// the module; and the module's entries.
pub open spec fn is_split_module(m: &Module, r: &Registry, entries: Seq<(QualifiedTypeNameV, ContainerFormatV)>, root: Seq<char>) -> bool {
    let c = m.config();
    let key = c.module_name@;
    &&& r@ == module_entries(entries, root, key)
    &&& c.encoding == Encoding::Plain
    &&& c.external_packages@.len() == 0
    &&& !c.has_bigint
    &&& c.features@.len() == 0
    &&& !c.c_style_enums
    &&& c.comments@.len() == 0
    &&& c.custom_code@.len() == 0
    &&& c.package_manifest
    &&& is_external_definitions(defs_view(c.external_definitions@), entries_refs(r@), key)
}

/// An entry belongs to the module of its key; the module's entries all come from the
/// registry and belong to it.
pub proof fn lemma_module_entries(entries: Seq<(QualifiedTypeNameV, ContainerFormatV)>, root: Seq<char>, key: Seq<char>)
    ensures
        forall|x: (QualifiedTypeNameV, ContainerFormatV)|
            module_entries(entries, root, key).contains(x) <==> (entries.contains(x) && module_key(x.0, root) == key),
    decreases entries.len(),
{
    if entries.len() > 0 {
        let rest = entries.drop_last();
        lemma_module_entries(rest, root, key);
        assert forall|x: (QualifiedTypeNameV, ContainerFormatV)|
            entries.contains(x) <==> (rest.contains(x) || x == entries.last()) by {
            if entries.contains(x) {
                let i = choose|i: int| 0 <= i < entries.len() && entries[i] == x;
                if i < rest.len() {
                    assert(rest[i] == x);
                }
            }
            if rest.contains(x) {
                let i = choose|i: int| 0 <= i < rest.len() && rest[i] == x;
                assert(entries[i] == x);
            }
            if x == entries.last() {
                assert(entries[entries.len() - 1] == x);
            }
        }
        let m = module_entries(rest, root, key);
        let l = entries.last();
        assert forall|x: (QualifiedTypeNameV, ContainerFormatV)| m.push(l).contains(x) <==> (m.contains(x) || x == l) by {
            if m.push(l).contains(x) {
                let i = choose|i: int| 0 <= i < m.push(l).len() && m.push(l)[i] == x;
                if i < m.len() {
                    assert(m[i] == x);
                }
            }
            if m.contains(x) {
                let i = choose|i: int| 0 <= i < m.len() && m[i] == x;
                assert(m.push(l)[i] == x);
            }
            if x == l {
                assert(m.push(l)[m.len() as int] == x);
            }
        }
    }
}

/// A registry whose types all live in the root namespace has one module, `root` (none if
/// it is empty), and that module holds every entry, in order.
pub proof fn lemma_split_single_namespace(entries: Seq<(QualifiedTypeNameV, ContainerFormatV)>, root: Seq<char>)
    requires
        forall|i: int| 0 <= i < entries.len() ==> (#[trigger] entries[i]).0.namespace == NamespaceV::Root,
    ensures
        forall|k: Seq<char>| #[trigger] has_module(entries, root, k) <==> (entries.len() > 0 && k == root),
        module_entries(entries, root, root) == entries,
    decreases entries.len(),
{
    if entries.len() > 0 {
        let rest = entries.drop_last();
        assert forall|i: int| 0 <= i < rest.len() implies (#[trigger] rest[i]).0.namespace == NamespaceV::Root by {
            assert(rest[i] == entries[i]);
        }
        lemma_split_single_namespace(rest, root);
        assert(rest.push(entries.last()) =~= entries);
        assert(module_key(entries[0].0, root) == root);
    }
}

/// The entries of one module are the registry's entries of that module: the modules of
/// a split partition the registry, each entry landing in the module of its namespace.
pub proof fn lemma_split_partitions(
    entries: Seq<(QualifiedTypeNameV, ContainerFormatV)>,
    root: Seq<char>,
    j: int,
    key: Seq<char>,
)
    requires
        0 <= j < entries.len(),
    ensures
        has_module(entries, root, module_key(entries[j].0, root)),
        module_entries(entries, root, key).contains(entries[j]) <==> key == module_key(entries[j].0, root),
{
    lemma_module_entries(entries, root, key);
    assert(entries.contains(entries[j]));
}

/// The number of entries of the modules `keys`.
pub open spec fn modules_size(entries: Seq<(QualifiedTypeNameV, ContainerFormatV)>, root: Seq<char>, keys: Seq<Seq<char>>) -> int
    decreases keys.len(),
{
    if keys.len() == 0 {
        0
    } else {
        modules_size(entries, root, keys.drop_last()) + module_entries(entries, root, keys.last()).len()
    }
}

/// The number of entries of the registries of a split.
pub open spec fn split_size(r: Seq<(Module, Registry)>) -> int
    decreases r.len(),
{
    if r.len() == 0 {
        0
    } else {
        split_size(r.drop_last()) + r.last().1@.len()
    }
}

proof fn lemma_modules_size_step(entries: Seq<(QualifiedTypeNameV, ContainerFormatV)>, root: Seq<char>, keys: Seq<Seq<char>>)
    requires
        entries.len() > 0,
        keys.no_duplicates(),
    ensures
        modules_size(entries, root, keys) == modules_size(entries.drop_last(), root, keys) + if keys.contains(
            module_key(entries.last().0, root),
        ) {
            1int
        } else {
            0int
        },
    decreases keys.len(),
{
    if keys.len() > 0 {
        let ks = keys.drop_last();
        let x = module_key(entries.last().0, root);
        assert(ks.no_duplicates());
        lemma_modules_size_step(entries, root, ks);
        assert(keys.contains(x) <==> (ks.contains(x) || keys.last() == x)) by {
            if keys.contains(x) {
                let i = choose|i: int| 0 <= i < keys.len() && keys[i] == x;
                if i < ks.len() {
                    assert(ks[i] == x);
                }
            }
            if ks.contains(x) {
                let i = choose|i: int| 0 <= i < ks.len() && ks[i] == x;
                assert(keys[i] == x);
            }
            if keys.last() == x {
                assert(keys[keys.len() - 1] == x);
            }
        }
        if ks.contains(x) {
            let i = choose|i: int| 0 <= i < ks.len() && ks[i] == x;
            assert(keys[i] == ks[i]);
            assert(keys.last() != x);
        }
    }
}

proof fn lemma_modules_size(entries: Seq<(QualifiedTypeNameV, ContainerFormatV)>, root: Seq<char>, keys: Seq<Seq<char>>)
    requires
        keys.no_duplicates(),
        forall|i: int| 0 <= i < entries.len() ==> keys.contains(module_key(#[trigger] entries[i].0, root)),
    ensures
        modules_size(entries, root, keys) == entries.len(),
    decreases entries.len(), keys.len(),
{
    if entries.len() == 0 {
        if keys.len() > 0 {
            assert(keys.drop_last().no_duplicates());
            lemma_modules_size(entries, root, keys.drop_last());
        }
    } else {
        let rest = entries.drop_last();
        assert forall|i: int| 0 <= i < rest.len() implies keys.contains(module_key(#[trigger] rest[i].0, root)) by {
            assert(rest[i] == entries[i]);
        }
        lemma_modules_size(rest, root, keys);
        lemma_modules_size_step(entries, root, keys);
        assert(entries.last() == entries[entries.len() - 1]);
    }
}

/// Splitting loses and repeats no type: the registries of the modules hold as many entries
/// together as the registry that was split, and none of them is empty.
pub proof fn lemma_split_sizes(registry: Seq<(QualifiedTypeNameV, ContainerFormatV)>, root: Seq<char>, r: Seq<(Module, Registry)>)
    requires
        forall|i: int, j: int|
            0 <= i < j < r.len() ==> lex_lt((#[trigger] r[i]).0.config().module_name@, (#[trigger] r[j]).0.config().module_name@),
        forall|k: Seq<char>| has_module(registry, root, k) <==> exists|i: int| 0 <= i < r.len() && (#[trigger] r[i]).0.config().module_name@ == k,
        forall|i: int| 0 <= i < r.len() ==> is_split_module(&(#[trigger] r[i]).0, &r[i].1, registry, root),
    ensures
        split_size(r) == registry.len(),
        forall|i: int| 0 <= i < r.len() ==> (#[trigger] r[i]).1@.len() > 0,
{
    let keys = r.map_values(|p: (Module, Registry)| p.0.config().module_name@);
    assert(keys.no_duplicates()) by {
        assert forall|i: int, j: int| 0 <= i < keys.len() && 0 <= j < keys.len() && i != j implies keys[i] != keys[j] by {
            if i < j {
                assert(lex_lt(r[i].0.config().module_name@, r[j].0.config().module_name@));
                lemma_lex_lt_irreflexive(keys[i]);
            } else {
                assert(lex_lt(r[j].0.config().module_name@, r[i].0.config().module_name@));
                lemma_lex_lt_irreflexive(keys[j]);
            }
        }
    }
    assert forall|i: int| 0 <= i < registry.len() implies keys.contains(module_key(#[trigger] registry[i].0, root)) by {
        let k = module_key(registry[i].0, root);
        assert(has_module(registry, root, k));
        let j = choose|j: int| 0 <= j < r.len() && (#[trigger] r[j]).0.config().module_name@ == k;
        assert(keys[j] == k);
    }
    lemma_modules_size(registry, root, keys);
    lemma_split_size_keys(registry, root, r);
    assert forall|i: int| 0 <= i < r.len() implies (#[trigger] r[i]).1@.len() > 0 by {
        let k = r[i].0.config().module_name@;
        assert(has_module(registry, root, k));
        let j = choose|j: int| 0 <= j < registry.len() && module_key(#[trigger] registry[j].0, root) == k;
        lemma_split_partitions(registry, root, j, k);
        assert(is_split_module(&r[i].0, &r[i].1, registry, root));
    }
}

proof fn lemma_split_size_keys(registry: Seq<(QualifiedTypeNameV, ContainerFormatV)>, root: Seq<char>, r: Seq<(Module, Registry)>)
    requires
        forall|i: int| 0 <= i < r.len() ==> is_split_module(&(#[trigger] r[i]).0, &r[i].1, registry, root),
    ensures
        split_size(r) == modules_size(registry, root, r.map_values(|p: (Module, Registry)| p.0.config().module_name@)),
    decreases r.len(),
{
    if r.len() > 0 {
        let rest = r.drop_last();
        assert forall|i: int| 0 <= i < rest.len() implies is_split_module(&(#[trigger] rest[i]).0, &rest[i].1, registry, root) by {
            assert(rest[i] == r[i]);
        }
        lemma_split_size_keys(registry, root, rest);
        assert(r.map_values(|p: (Module, Registry)| p.0.config().module_name@).drop_last() =~= rest.map_values(
            |p: (Module, Registry)| p.0.config().module_name@,
        ));
        assert(is_split_module(&r[r.len() - 1].0, &r[r.len() - 1].1, registry, root));
    }
}

/// A name is among the external definitions of namespace `ns` exactly when some reference
/// points to that name in `ns`.
pub proof fn lemma_names_in_contains(refs: Seq<QualifiedTypeNameV>, ns: Seq<char>, n: Seq<char>)
    ensures
        names_in(refs, ns).contains(n) <==> refs.contains(QualifiedTypeNameV { namespace: NamespaceV::Named(ns), name: n }),
    decreases refs.len(),
{
    if refs.len() > 0 {
        let rest = refs.drop_last();
        let q = QualifiedTypeNameV { namespace: NamespaceV::Named(ns), name: n };
        lemma_names_in_contains(rest, ns, n);
        assert(refs.contains(q) <==> (rest.contains(q) || refs.last() == q)) by {
            if refs.contains(q) {
                let i = choose|i: int| 0 <= i < refs.len() && refs[i] == q;
                if i < rest.len() {
                    assert(rest[i] == q);
                }
            }
            if rest.contains(q) {
                let i = choose|i: int| 0 <= i < rest.len() && rest[i] == q;
                assert(refs[i] == q);
            }
            if refs.last() == q {
                assert(refs[refs.len() - 1] == q);
            }
        }
        let m = names_in(rest, ns);
        if refs.last().namespace == NamespaceV::Named(ns) {
            assert(m.push(refs.last().name).contains(n) <==> (m.contains(n) || refs.last().name == n)) by {
                if m.push(refs.last().name).contains(n) {
                    let i = choose|i: int| 0 <= i < m.len() + 1 && m.push(refs.last().name)[i] == n;
                    if i < m.len() {
                        assert(m[i] == n);
                    }
                }
                if m.contains(n) {
                    let i = choose|i: int| 0 <= i < m.len() && m[i] == n;
                    assert(m.push(refs.last().name)[i] == n);
                }
                if refs.last().name == n {
                    assert(m.push(refs.last().name)[m.len() as int] == n);
                }
            }
        }
    }
}

/// The external definitions of a module of a split name exactly the other namespaces that
/// its types refer to; under each, a name is listed exactly when some type of the module
/// refers to that name in that namespace.
pub proof fn lemma_split_external_definitions(
    m: &Module,
    r: &Registry,
    registry: Seq<(QualifiedTypeNameV, ContainerFormatV)>,
    root: Seq<char>,
    ns: Seq<char>,
    n: Seq<char>,
)
    requires
        is_split_module(m, r, registry, root),
    ensures
        ({
            let d = defs_view(m.config().external_definitions@);
            let refs = entries_refs(r@);
            &&& has_key(d, ns) <==> (ns != m.config().module_name@ && refers_to(refs, ns))
            &&& forall|i: int| 0 <= i < d.len() && (#[trigger] d[i]).0 == ns ==> (d[i].1.contains(n) <==> refs.contains(
                QualifiedTypeNameV { namespace: NamespaceV::Named(ns), name: n },
            ))
        }),
{
    let d = defs_view(m.config().external_definitions@);
    let refs = entries_refs(r@);
    lemma_names_in_contains(refs, ns, n);
    assert forall|i: int| 0 <= i < d.len() && (#[trigger] d[i]).0 == ns implies (d[i].1.contains(n) <==> refs.contains(
        QualifiedTypeNameV { namespace: NamespaceV::Named(ns), name: n },
    )) by {
        assert(d[i].1 == names_in(refs, d[i].0));
    }
}

/// Each reference of `refs`, renamed by `m`.
pub open spec fn renamed_refs<M: TypeNameMap>(refs: Seq<QualifiedTypeNameV>, m: M) -> Seq<QualifiedTypeNameV> {
    refs.map_values(|q: QualifiedTypeNameV| m.map_name(q))
}

proof fn lemma_renamed_refs_concat<M: TypeNameMap>(a: Seq<QualifiedTypeNameV>, b: Seq<QualifiedTypeNameV>, m: M)
    ensures
        renamed_refs(a + b, m) == renamed_refs(a, m) + renamed_refs(b, m),
{
    assert(renamed_refs(a + b, m) =~= renamed_refs(a, m) + renamed_refs(b, m));
}

/// Renaming the type names of a format renames its references, in place.
pub proof fn lemma_format_refs_names<M: TypeNameMap>(f: FormatV, m: M)
    ensures
        format_refs(format_names(f, m)) == renamed_refs(format_refs(f), m),
    decreases f,
{
    match f {
        FormatV::TypeName(q) => {
            assert(renamed_refs(seq![q], m) =~= seq![m.map_name(q)]);
        },
        FormatV::Option(g) | FormatV::Sequence(g) | FormatV::SetOf(g) => lemma_format_refs_names(*g, m),
        FormatV::MapOf { key, value } => {
            lemma_format_refs_names(*key, m);
            lemma_format_refs_names(*value, m);
            lemma_renamed_refs_concat(format_refs(*key), format_refs(*value), m);
        },
        FormatV::Tuple(s) => lemma_formats_refs_names(s, m),
        FormatV::TupleArray { content, .. } => lemma_format_refs_names(*content, m),
        _ => {
            assert(renamed_refs(Seq::<QualifiedTypeNameV>::empty(), m) =~= Seq::<QualifiedTypeNameV>::empty());
        },
    }
}

pub proof fn lemma_formats_refs_names<M: TypeNameMap>(s: Seq<FormatV>, m: M)
    ensures
        formats_refs(formats_names(s, m)) == renamed_refs(formats_refs(s), m),
    decreases s,
{
    if s.len() > 0 {
        lemma_formats_refs_names(s.drop_last(), m);
        lemma_format_refs_names(s.last(), m);
        let t = formats_names(s, m);
        assert(t.drop_last() == formats_names(s.drop_last(), m));
        assert(t.last() == format_names(s.last(), m));
        lemma_renamed_refs_concat(formats_refs(s.drop_last()), format_refs(s.last()), m);
    } else {
        assert(renamed_refs(Seq::<QualifiedTypeNameV>::empty(), m) =~= Seq::<QualifiedTypeNameV>::empty());
    }
}

proof fn lemma_nameds_refs_names<M: TypeNameMap>(s: Seq<NamedV<FormatV>>, m: M)
    ensures
        nameds_refs(nameds_names(s, m)) == renamed_refs(nameds_refs(s), m),
    decreases s.len(),
{
    if s.len() > 0 {
        let t = nameds_names(s, m);
        lemma_nameds_refs_names(s.drop_last(), m);
        lemma_format_refs_names(s.last().value, m);
        assert(t.drop_last() =~= nameds_names(s.drop_last(), m));
        assert(t.last() == named_names(s.last(), m));
        lemma_renamed_refs_concat(nameds_refs(s.drop_last()), format_refs(s.last().value), m);
    } else {
        assert(renamed_refs(Seq::<QualifiedTypeNameV>::empty(), m) =~= Seq::<QualifiedTypeNameV>::empty());
    }
}

proof fn lemma_variant_refs_names<M: TypeNameMap>(v: VariantFormatV, m: M)
    ensures
        variant_refs(variant_names(v, m)) == renamed_refs(variant_refs(v), m),
{
    match v {
        VariantFormatV::Unit => {
            assert(renamed_refs(Seq::<QualifiedTypeNameV>::empty(), m) =~= Seq::<QualifiedTypeNameV>::empty());
        },
        VariantFormatV::NewType(f) => lemma_format_refs_names(f, m),
        VariantFormatV::Tuple(s) => lemma_formats_refs_names(s, m),
        VariantFormatV::Struct(fs) => lemma_nameds_refs_names(fs, m),
    }
}

proof fn lemma_variants_refs_names<M: TypeNameMap>(s: Seq<(u32, NamedV<VariantFormatV>)>, m: M)
    ensures
        variants_refs(variants_names(s, m)) == renamed_refs(variants_refs(s), m),
    decreases s.len(),
{
    if s.len() > 0 {
        let t = variants_names(s, m);
        lemma_variants_refs_names(s.drop_last(), m);
        lemma_variant_refs_names(s.last().1.value, m);
        assert(t.drop_last() =~= variants_names(s.drop_last(), m));
        assert(t.last().1.value == variant_names(s.last().1.value, m));
        lemma_renamed_refs_concat(variants_refs(s.drop_last()), variant_refs(s.last().1.value), m);
    } else {
        assert(renamed_refs(Seq::<QualifiedTypeNameV>::empty(), m) =~= Seq::<QualifiedTypeNameV>::empty());
    }
}

/// Renaming the type names inside a container renames its references, in place.
pub proof fn lemma_container_refs_names<M: TypeNameMap>(c: ContainerFormatV, m: M)
    ensures
        container_refs(container_names(c, m)) == renamed_refs(container_refs(c), m),
{
    match c {
        ContainerFormatV::UnitStruct(_) => {
            assert(renamed_refs(Seq::<QualifiedTypeNameV>::empty(), m) =~= Seq::<QualifiedTypeNameV>::empty());
        },
        ContainerFormatV::NewTypeStruct(f, _) => lemma_format_refs_names(f, m),
        ContainerFormatV::TupleStruct(s, _) => lemma_formats_refs_names(s, m),
        ContainerFormatV::Struct(fs, _) => lemma_nameds_refs_names(fs, m),
        ContainerFormatV::Enum(vs, _) => lemma_variants_refs_names(vs, m),
    }
}

/// Renaming the type names inside a registry's containers renames the references of the
/// registry, in place and in order.
pub proof fn lemma_entries_refs_names<M: TypeNameMap>(r: Seq<(QualifiedTypeNameV, ContainerFormatV)>, m: M)
    ensures
        entries_refs(registry_names(r, m)) == renamed_refs(entries_refs(r), m),
    decreases r.len(),
{
    if r.len() > 0 {
        let t = registry_names(r, m);
        lemma_entries_refs_names(r.drop_last(), m);
        lemma_container_refs_names(r.last().1, m);
        assert(t.drop_last() =~= registry_names(r.drop_last(), m));
        assert(t.last().1 == container_names(r.last().1, m));
        lemma_renamed_refs_concat(entries_refs(r.drop_last()), container_refs(r.last().1), m);
    } else {
        assert(renamed_refs(Seq::<QualifiedTypeNameV>::empty(), m) =~= Seq::<QualifiedTypeNameV>::empty());
    }
}

} // verus!

verus! {

/// Appends to `out` the type names that `f` refers to, left to right.
fn push_format_refs(f: &Format, out: &mut Vec<QualifiedTypeName>)
    ensures
        seq_view(final(out)@) == seq_view(old(out)@) + format_refs(f@),
    decreases f, 0nat,
{
    let ghost before = seq_view(out@);
    match f {
        Format::TypeName(q) => {
            out.push(q.duplicate());
            assert(seq_view(out@) =~= before + seq![q@]);
        },
        Format::Option(g) | Format::Sequence(g) | Format::SetOf(g) => push_format_refs(g, out),
        Format::MapOf { key, value } => {
            push_format_refs(key, out);
            push_format_refs(value, out);
            assert(before + format_refs(key@) + format_refs(value@) =~= before + (format_refs(key@) + format_refs(value@)));
        },
        Format::Tuple(v) => push_formats_refs(v, out),
        Format::TupleArray { content, .. } => push_format_refs(content, out),
        _ => {
            assert(seq_view(out@) =~= before + format_refs(f@));
        },
    }
}

/// Appends to `out` the type names that the formats of `v` refer to, left to right.
fn push_formats_refs(v: &Vec<Format>, out: &mut Vec<QualifiedTypeName>)
    ensures
        seq_view(final(out)@) == seq_view(old(out)@) + formats_refs(formats_view(v@)),
    decreases v@, 1nat,
{
    let ghost before = seq_view(out@);
    let mut i: usize = 0;
    assert(formats_view(v@.take(0)) =~= Seq::<FormatV>::empty());
    assert(before + formats_refs(Seq::<FormatV>::empty()) =~= before);
    while i < v.len()
        invariant
            i <= v.len(),
            seq_view(out@) == before + formats_refs(formats_view(v@.take(i as int))),
        decreases v.len() - i,
    {
        proof {
            assert(decreases_to!(v@ => v@[i as int]));
        }
        let ghost mid = seq_view(out@);
        push_format_refs(&v[i], out);
        proof {
            let x = formats_view(v@.take(i + 1));
            assert(v@.take(i + 1).drop_last() =~= v@.take(i as int));
            assert(x == formats_view(v@.take(i as int)).push(v@[i as int]@));
            assert(x.drop_last() =~= formats_view(v@.take(i as int)));
            assert(x.last() == v@[i as int]@);
            assert(formats_refs(x) == formats_refs(formats_view(v@.take(i as int))) + format_refs(v@[i as int]@));
            assert(seq_view(out@) =~= before + formats_refs(x));
        }
        i = i + 1;
    }
    assert(v@.take(v.len() as int) =~= v@);
}

/// Appends to `out` the type names that the fields refer to, in field order.
fn push_nameds_refs(v: &Vec<Named<Format>>, out: &mut Vec<QualifiedTypeName>)
    ensures
        seq_view(final(out)@) == seq_view(old(out)@) + nameds_refs(seq_view(v@)),
{
    let ghost before = seq_view(out@);
    let mut i: usize = 0;
    assert(seq_view(v@.take(0)) =~= Seq::<NamedV<FormatV>>::empty());
    assert(before + nameds_refs(Seq::<NamedV<FormatV>>::empty()) =~= before);
    while i < v.len()
        invariant
            i <= v.len(),
            seq_view(out@) == before + nameds_refs(seq_view(v@.take(i as int))),
        decreases v.len() - i,
    {
        push_format_refs(&v[i].value, out);
        proof {
            let x = seq_view(v@.take(i + 1));
            assert(x.drop_last() =~= seq_view(v@.take(i as int)));
            assert(x.last() == v@[i as int]@);
            assert(seq_view(out@) =~= before + nameds_refs(x));
        }
        i = i + 1;
    }
    assert(v@.take(v.len() as int) =~= v@);
}

/// Appends to `out` the type names that a variant refers to.
fn push_variant_refs(v: &VariantFormat, out: &mut Vec<QualifiedTypeName>)
    ensures
        seq_view(final(out)@) == seq_view(old(out)@) + variant_refs(v@),
{
    match v {
        VariantFormat::Unit => {
            assert(seq_view(out@) =~= seq_view(out@) + variant_refs(v@));
        },
        VariantFormat::NewType(f) => push_format_refs(f, out),
        VariantFormat::Tuple(fs) => {
            proof {
                lemma_formats_view(fs@);
            }
            push_formats_refs(fs, out);
        },
        VariantFormat::Struct(ns) => push_nameds_refs(ns, out),
    }
}

/// Appends to `out` the type names that the variants refer to, in variant order.
fn push_variants_refs(vs: &VariantMap, out: &mut Vec<QualifiedTypeName>)
    ensures
        seq_view(final(out)@) == seq_view(old(out)@) + variants_refs(vs@),
{
    let ghost before = seq_view(out@);
    let mut i: usize = 0;
    assert(vs@.take(0) =~= Seq::<(u32, NamedV<VariantFormatV>)>::empty());
    assert(before + variants_refs(Seq::<(u32, NamedV<VariantFormatV>)>::empty()) =~= before);
    while i < vs.len()
        invariant
            i <= vs@.len(),
            seq_view(out@) == before + variants_refs(vs@.take(i as int)),
        decreases vs@.len() - i,
    {
        let (_k, v) = vs.entry(i);
        push_variant_refs(&v.value, out);
        proof {
            let x = vs@.take(i + 1);
            assert(x.drop_last() =~= vs@.take(i as int));
            assert(seq_view(out@) =~= before + variants_refs(x));
        }
        i = i + 1;
    }
    assert(vs@.take(vs@.len() as int) =~= vs@);
}

/// Appends to `out` the type names that a container refers to.
fn push_container_refs(c: &ContainerFormat, out: &mut Vec<QualifiedTypeName>)
    ensures
        seq_view(final(out)@) == seq_view(old(out)@) + container_refs(c@),
{
    match c {
        ContainerFormat::UnitStruct(_) => {
            assert(seq_view(out@) =~= seq_view(out@) + container_refs(c@));
        },
        ContainerFormat::NewTypeStruct(f, _) => push_format_refs(f, out),
        ContainerFormat::TupleStruct(fs, _) => {
            proof {
                lemma_formats_view(fs@);
            }
            push_formats_refs(fs, out);
        },
        ContainerFormat::Struct(ns, _) => push_nameds_refs(ns, out),
        ContainerFormat::Enum(vs, _) => push_variants_refs(vs, out),
    }
}

/// The type names that the containers of the registry refer to, in registry order.
fn registry_refs(registry: &Registry) -> (out: Vec<QualifiedTypeName>)
    ensures
        seq_view(out@) == entries_refs(registry@),
{
    let mut out: Vec<QualifiedTypeName> = Vec::new();
    let mut i: usize = 0;
    assert(seq_view(out@) =~= entries_refs(registry@.take(0)));
    while i < registry.len()
        invariant
            i <= registry@.len(),
            seq_view(out@) == entries_refs(registry@.take(i as int)),
        decreases registry@.len() - i,
    {
        let (_k, c) = registry.entry(i);
        push_container_refs(c, &mut out);
        proof {
            let x = registry@.take(i + 1);
            assert(x.drop_last() =~= registry@.take(i as int));
        }
        i = i + 1;
    }
    assert(registry@.take(registry@.len() as int) =~= registry@);
    out
}

} // verus!

verus! {

proof fn lemma_names_in_push(refs: Seq<QualifiedTypeNameV>, q: QualifiedTypeNameV, ns: Seq<char>)
    ensures
        names_in(refs.push(q), ns) == if q.namespace == NamespaceV::Named(ns) {
            names_in(refs, ns).push(q.name)
        } else {
            names_in(refs, ns)
        },
        refers_to(refs.push(q), ns) <==> (refers_to(refs, ns) || q.namespace == NamespaceV::Named(ns)),
{
    assert(refs.push(q).drop_last() =~= refs);
    if refers_to(refs, ns) {
        let i = choose|i: int| 0 <= i < refs.len() && (#[trigger] refs[i]).namespace == NamespaceV::Named(ns);
        assert(refs.push(q)[i] == refs[i]);
    }
    if q.namespace == NamespaceV::Named(ns) {
        assert(refs.push(q)[refs.len() as int] == q);
    }
    if refers_to(refs.push(q), ns) {
        let i = choose|i: int| 0 <= i < refs.len() + 1 && (#[trigger] refs.push(q)[i]).namespace == NamespaceV::Named(ns);
        if i < refs.len() {
            assert(refs[i] == refs.push(q)[i]);
        }
    }
}

/// The external definitions of module `key` for the references `refs`: for each other
/// namespace referred to, the names referred to there, in order.
fn external_definitions_of(key: &String, refs: &Vec<QualifiedTypeName>) -> (d: ExternalDefinitions)
    ensures
        is_external_definitions(defs_view(d@), seq_view(refs@), key@),
{
    let mut d: ExternalDefinitions = SortedMap::new();
    let mut i: usize = 0;
    assert(seq_view(refs@).take(0) =~= Seq::<QualifiedTypeNameV>::empty());
    assert(defs_view(d@) =~= Seq::<(Seq<char>, Seq<Seq<char>>)>::empty());
    while i < refs.len()
        invariant
            i <= refs.len(),
            keys_increasing::<String, Vec<String>>(d@),
            is_external_definitions(defs_view(d@), seq_view(refs@).take(i as int), key@),
        decreases refs.len() - i,
    {
        let q = &refs[i];
        let ghost r = seq_view(refs@).take(i as int);
        let ghost r2 = seq_view(refs@).take(i + 1);
        let ghost qv = q@;
        proof {
            assert(r2 =~= r.push(qv));
            assert forall|ns: Seq<char>| #![auto] names_in(r2, ns) == (if qv.namespace == NamespaceV::Named(ns) {
                names_in(r, ns).push(qv.name)
            } else {
                names_in(r, ns)
            }) && (refers_to(r2, ns) <==> (refers_to(r, ns) || qv.namespace == NamespaceV::Named(ns))) by {
                lemma_names_in_push(r, qv, ns);
            }
        }
        let ghost d0 = d@;
        let external: Option<&String> = match &q.namespace {
            Namespace::Named(ns) => if str_eq(ns.as_str(), key.as_str()) { None } else { Some(ns) },
            Namespace::Root => None,
        };
        match external {
            Some(ns) => {
                let mut names: Vec<String> = match d.get(ns) {
                    Some(v) => v.duplicate(),
                    None => Vec::new(),
                };
                let ghost nv = ns@;
                proof {
                    assert(qv.namespace == NamespaceV::Named(nv));
                    assert(nv != key@);
                    if has_key(d0, nv) {
                        let j = key_index(d0, nv);
                        assert(defs_view(d0)[j].0 == nv);
                        assert(has_key(defs_view(d0), nv));
                    } else {
                        assert forall|j: int| 0 <= j < defs_view(d0).len() implies defs_view(d0)[j].0 != nv by {
                            assert(d0[j].0 == defs_view(d0)[j].0);
                        }
                        assert(!refers_to(r, nv));
                        assert(names_in(r, nv) =~= Seq::<Seq<char>>::empty()) by {
                            lemma_names_in_absent(r, nv);
                        }
                    }
                    assert(seq_view(names@) == names_in(r, nv));
                }
                names.push(q.name.clone());
                assert(seq_view(names@) =~= names_in(r2, nv));
                d.insert(ns.clone(), names);
                proof {
                    lemma_insert_spec::<String, Vec<String>>(d0, nv, names@);
                    let t = d@;
                    let tv = defs_view(t);
                    assert forall|x: Seq<char>| has_key(tv, x) <==> has_key(t, x) by {
                        if has_key(tv, x) {
                            let j = choose|j: int| 0 <= j < tv.len() && tv[j].0 == x;
                            assert(t[j].0 == x);
                        }
                        if has_key(t, x) {
                            let j = choose|j: int| 0 <= j < t.len() && t[j].0 == x;
                            assert(tv[j].0 == x);
                        }
                    }
                    assert forall|x: Seq<char>| has_key(defs_view(d0), x) <==> has_key(d0, x) by {
                        if has_key(defs_view(d0), x) {
                            let j = choose|j: int| 0 <= j < d0.len() && defs_view(d0)[j].0 == x;
                            assert(d0[j].0 == x);
                        }
                        if has_key(d0, x) {
                            let j = choose|j: int| 0 <= j < d0.len() && d0[j].0 == x;
                            assert(defs_view(d0)[j].0 == x);
                        }
                    }
                    assert forall|j: int| 0 <= j < tv.len() implies (#[trigger] tv[j]).1 == names_in(r2, tv[j].0) by {
                        if t[j].0 == nv {
                        } else {
                            let k = choose|k: int| 0 <= k < d0.len() && d0[k] == t[j];
                            assert(defs_view(d0)[k] == tv[j]);
                        }
                    }
                    assert forall|a: int, b: int| 0 <= a < b < tv.len() implies lex_lt(#[trigger] tv[a].0, #[trigger] tv[b].0) by {
                        assert(String::key_lt(t[a].0, t[b].0));
                    }
                    assert forall|x: Seq<char>| has_key(tv, x) <==> (x != key@ && refers_to(r2, x)) by {
                        lemma_names_in_push(r, qv, x);
                        assert(has_key(tv, x) <==> has_key(t, x));
                        assert(has_key(t, x) <==> (has_key(d0, x) || x == nv));
                        assert(has_key(defs_view(d0), x) <==> has_key(d0, x));
                        assert(has_key(defs_view(d0), x) <==> (x != key@ && refers_to(r, x)));
                    }
                }
            },
            _ => {
                proof {
                    assert(qv.namespace == NamespaceV::Root || qv.namespace == NamespaceV::Named(key@));
                    assert forall|ns: Seq<char>| has_key(defs_view(d@), ns) <==> (ns != key@ && refers_to(r2, ns)) by {
                        lemma_names_in_push(r, qv, ns);
                    }
                    assert forall|j: int| 0 <= j < defs_view(d@).len() implies (#[trigger] defs_view(d@)[j]).1 == names_in(r2, defs_view(d@)[j].0) by {
                        let x = defs_view(d@)[j].0;
                        assert(has_key(defs_view(d@), x));
                    }
                }
            },
        }
        i = i + 1;
    }
    assert(seq_view(refs@).take(refs.len() as int) =~= seq_view(refs@));
    d
}

proof fn lemma_names_in_absent(refs: Seq<QualifiedTypeNameV>, ns: Seq<char>)
    requires
        !refers_to(refs, ns),
    ensures
        names_in(refs, ns) == Seq::<Seq<char>>::empty(),
    decreases refs.len(),
{
    if refs.len() > 0 {
        let rest = refs.drop_last();
        assert forall|i: int| 0 <= i < rest.len() implies (#[trigger] rest[i]).namespace != NamespaceV::Named(ns) by {
            assert(rest[i] == refs[i]);
        }
        lemma_names_in_absent(rest, ns);
        assert(refs[refs.len() - 1] == refs.last());
    }
}

} // verus!

verus! {

/// Splits a registry by namespace: one module per namespace (the root namespace taking the
/// name `root`), in module name order, each with the registry of its types and, as external
/// definitions, the types of other namespaces that those refer to.
pub fn split(root: &str, registry: &Registry) -> (r: Vec<(Module, Registry)>)
    ensures
        forall|i: int, j: int|
            0 <= i < j < r.len() ==> lex_lt(
                (#[trigger] r@[i]).0.config().module_name@,
                (#[trigger] r@[j]).0.config().module_name@,
            ),
        forall|k: Seq<char>|
            has_module(registry@, root@, k) <==> exists|i: int| 0 <= i < r.len() && (#[trigger] r@[i]).0.config().module_name@ == k,
        forall|i: int| 0 <= i < r.len() ==> is_split_module(&(#[trigger] r@[i]).0, &r@[i].1, registry@, root@),
{
    let mut groups: SortedMap<String, Registry> = SortedMap::new();
    let n = registry.len();
    let mut i: usize = 0;
    proof {
        assert(registry@.take(0) =~= Seq::<(QualifiedTypeNameV, ContainerFormatV)>::empty());
    }
    while i < n
        invariant
            i <= n == registry@.len(),
            keys_increasing::<QualifiedTypeName, ContainerFormat>(registry@),
            keys_increasing::<String, Registry>(groups@),
            forall|k: Seq<char>| has_key(groups@, k) <==> has_module(registry@.take(i as int), root@, k),
            forall|j: int| 0 <= j < groups@.len() ==> (#[trigger] groups@[j]).1 == module_entries(registry@.take(i as int), root@, groups@[j].0),
        decreases n - i,
    {
        let (name, c) = registry.entry(i);
        let key: String = match &name.namespace {
            Namespace::Root => String::from_str(root),
            Namespace::Named(ns) => ns.clone(),
        };
        let ghost kv = key@;
        let ghost g0 = groups@;
        let ghost p = registry@.take(i as int);
        let ghost p2 = registry@.take(i + 1);
        let ghost e = registry@[i as int];
        proof {
            assert(p2 =~= p.push(e));
            assert(p2.drop_last() =~= p);
            assert(kv == module_key(e.0, root@));
        }
        let mut group: Registry = match groups.get(&key) {
            Some(g) => g.duplicate(),
            None => SortedMap::new(),
        };
        proof {
            if has_key(g0, kv) {
                assert(group@ == module_entries(p, root@, kv));
            } else {
                assert(!has_module(p, root@, kv));
                lemma_module_entries(p, root@, kv);
                assert(module_entries(p, root@, kv) =~= Seq::<(QualifiedTypeNameV, ContainerFormatV)>::empty()) by {
                    if module_entries(p, root@, kv).len() > 0 {
                        let x = module_entries(p, root@, kv)[0];
                        assert(module_entries(p, root@, kv).contains(x));
                        assert(p.contains(x));
                        let j = choose|j: int| 0 <= j < p.len() && p[j] == x;
                        assert(module_key(p[j].0, root@) == kv);
                    }
                }
            }
            assert(group@ == module_entries(p, root@, kv));
            lemma_module_entries(p, root@, kv);
            assert forall|j: int| 0 <= j < group@.len() implies QualifiedTypeName::key_lt(#[trigger] group@[j].0, e.0) by {
                assert(module_entries(p, root@, kv).contains(group@[j]));
                assert(p.contains(group@[j]));
                let m = choose|m: int| 0 <= m < p.len() && p[m] == group@[j];
                assert(registry@[m] == p[m]);
                assert(QualifiedTypeName::key_lt(registry@[m].0, registry@[i as int].0));
            }
            lemma_insert_spec_greatest::<QualifiedTypeName, ContainerFormat>(group@, e.0, e.1);
        }
        group.insert(name.duplicate(), c.duplicate());
        proof {
            assert(group@ == module_entries(p2, root@, kv));
        }
        groups.insert(key, group);
        proof {
            lemma_insert_spec::<String, Registry>(g0, kv, group@);
            assert forall|k: Seq<char>| has_key(groups@, k) <==> has_module(p2, root@, k) by {
                if has_module(p2, root@, k) {
                    let j = choose|j: int| 0 <= j < p2.len() && module_key(#[trigger] p2[j].0, root@) == k;
                    if j < p.len() {
                        assert(p[j] == p2[j]);
                        assert(module_key(p[j].0, root@) == k);
                        assert(has_module(p, root@, k));
                    } else {
                        assert(k == kv);
                    }
                }
                if has_module(p, root@, k) {
                    let j = choose|j: int| 0 <= j < p.len() && module_key(#[trigger] p[j].0, root@) == k;
                    assert(p[j] == p2[j]);
                    assert(module_key(p2[j].0, root@) == k);
                }
                assert(module_key(p2[i as int].0, root@) == kv);
                assert(has_module(p2, root@, kv));
                assert(has_key(groups@, k) <==> (has_key(g0, k) || k == kv));
            }
            assert forall|j: int| 0 <= j < groups@.len() implies (#[trigger] groups@[j]).1 == module_entries(p2, root@, groups@[j].0) by {
                if groups@[j].0 != kv {
                    let m = choose|m: int| 0 <= m < g0.len() && g0[m] == groups@[j];
                    assert(g0[m].1 == module_entries(p, root@, g0[m].0));
                }
            }
        }
        i = i + 1;
    }
    assert(registry@.take(n as int) =~= registry@);
    let mut out: Vec<(Module, Registry)> = Vec::new();
    let mut j: usize = 0;
    while j < groups.len()
        invariant
            j <= groups@.len(),
            keys_increasing::<String, Registry>(groups@),
            forall|k: Seq<char>| has_key(groups@, k) <==> has_module(registry@, root@, k),
            forall|m: int| 0 <= m < groups@.len() ==> (#[trigger] groups@[m]).1 == module_entries(registry@, root@, groups@[m].0),
            out.len() == j,
            forall|m: int| 0 <= m < j ==> (#[trigger] out@[m]).0.config().module_name@ == groups@[m].0,
            forall|m: int| 0 <= m < j ==> is_split_module(&(#[trigger] out@[m]).0, &out@[m].1, registry@, root@),
        decreases groups@.len() - j,
    {
        let (key, group) = groups.entry(j);
        let refs = registry_refs(group);
        let defs = external_definitions_of(key, &refs);
        let config = CodeGeneratorConfig::new(key.clone()).with_external_definitions(defs);
        let module = Module(config);
        out.push((module, group.duplicate()));
        j = j + 1;
    }
    proof {
        assert forall|a: int, b: int| 0 <= a < b < out.len() implies lex_lt(
            (#[trigger] out@[a]).0.config().module_name@,
            (#[trigger] out@[b]).0.config().module_name@,
        ) by {
            assert(String::key_lt(groups@[a].0, groups@[b].0));
        }
        assert forall|k: Seq<char>| has_module(registry@, root@, k) <==> exists|m: int| 0 <= m < out.len() && (#[trigger] out@[m]).0.config().module_name@ == k by {
            if has_module(registry@, root@, k) {
                assert(has_key(groups@, k));
                let m = choose|m: int| 0 <= m < groups@.len() && groups@[m].0 == k;
                assert(out@[m].0.config().module_name@ == k);
            }
            if exists|m: int| 0 <= m < out.len() && (#[trigger] out@[m]).0.config().module_name@ == k {
                let m = choose|m: int| 0 <= m < out.len() && (#[trigger] out@[m]).0.config().module_name@ == k;
                assert(groups@[m].0 == k);
                assert(has_key(groups@, k));
            }
        }
    }
    out
}

} // verus!

verus! {

/// The namespaces other than `key` that `refs` point into, in order.
pub open spec fn external_namespaces(refs: Seq<QualifiedTypeNameV>, key: Seq<char>) -> Seq<Seq<char>> {
    sorted_texts(external_namespace_set(refs, key))
}

/// The namespaces other than `key` that `refs` point into.
pub open spec fn external_namespace_set(refs: Seq<QualifiedTypeNameV>, key: Seq<char>) -> Set<Seq<char>> {
    Set::new(|ns: Seq<char>| ns != key && refers_to(refs, ns))
}

/// The namespaces of external definitions are those that the references point into,
/// other than the module's own, in order.
pub proof fn lemma_external_namespaces(d: Seq<(Seq<char>, Seq<Seq<char>>)>, refs: Seq<QualifiedTypeNameV>, key: Seq<char>)
    requires
        is_external_definitions(d, refs, key),
    ensures
        d.map_values(|e: (Seq<char>, Seq<Seq<char>>)| e.0) == external_namespaces(refs, key),
{
    let keys = d.map_values(|e: (Seq<char>, Seq<Seq<char>>)| e.0);
    let s = external_namespace_set(refs, key);
    assert forall|i: int, j: int| 0 <= i < j < keys.len() implies lex_lt(#[trigger] keys[i], #[trigger] keys[j]) by {
        assert(lex_lt(d[i].0, d[j].0));
    }
    assert forall|x: Seq<char>| keys.to_set().contains(x) <==> s.contains(x) by {
        if keys.to_set().contains(x) {
            let i = choose|i: int| 0 <= i < keys.len() && keys[i] == x;
            assert(has_key(d, x));
        }
        if s.contains(x) {
            assert(has_key(d, x));
            let i = choose|i: int| 0 <= i < d.len() && d[i].0 == x;
            assert(keys[i] == x);
        }
    }
    assert(keys.to_set() =~= s);
    lemma_sorted_unique(keys, sorted_texts(s));
}

} // verus!
