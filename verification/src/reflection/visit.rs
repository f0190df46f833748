//! Rewriting every type name inside formats, containers and registries.
use vstd::prelude::*;

use crate::reflection::format::{formats_view, lemma_formats_view, seq_view, ContainerFormat, ContainerFormatV, Format, FormatV, Named, NamedV, QualifiedTypeName, QualifiedTypeNameV, Registry, VariantFormat, VariantFormatV, VariantMap};
use crate::util::sorted_map::Duplicate;

verus! {

/// A rule that maps each type name to a new one.
pub trait TypeNameMap {
    spec fn map_name(&self, q: QualifiedTypeNameV) -> QualifiedTypeNameV;

    fn apply(&self, q: &QualifiedTypeName) -> (r: QualifiedTypeName)
        ensures
            r@ == self.map_name(q@),
    ;
}

/// `f` with every type name mapped by `m`; everything else unchanged.
pub open spec fn format_names<M: TypeNameMap>(f: FormatV, m: M) -> FormatV
    decreases f,
{
    match f {
        FormatV::TypeName(q) => FormatV::TypeName(m.map_name(q)),
        FormatV::Option(g) => FormatV::Option(Box::new(format_names(*g, m))),
        FormatV::Sequence(g) => FormatV::Sequence(Box::new(format_names(*g, m))),
        FormatV::SetOf(g) => FormatV::SetOf(Box::new(format_names(*g, m))),
        FormatV::MapOf { key, value } => FormatV::MapOf {
            key: Box::new(format_names(*key, m)),
            value: Box::new(format_names(*value, m)),
        },
        FormatV::Tuple(s) => FormatV::Tuple(formats_names(s, m)),
        FormatV::TupleArray { content, size } => FormatV::TupleArray {
            content: Box::new(format_names(*content, m)),
            size,
        },
        _ => f,
    }
}

/// Each format of `s` with its type names mapped by `m`.
pub open spec fn formats_names<M: TypeNameMap>(s: Seq<FormatV>, m: M) -> Seq<FormatV>
    decreases s,
{
    if s.len() == 0 {
        Seq::empty()
    } else {
        formats_names(s.drop_last(), m).push(format_names(s.last(), m))
    }
}

pub open spec fn named_names<M: TypeNameMap>(n: NamedV<FormatV>, m: M) -> NamedV<FormatV> {
    NamedV { name: n.name, doc: n.doc, value: format_names(n.value, m) }
}

pub open spec fn nameds_names<M: TypeNameMap>(s: Seq<NamedV<FormatV>>, m: M) -> Seq<NamedV<FormatV>> {
    s.map_values(|n: NamedV<FormatV>| named_names(n, m))
}

pub open spec fn variant_names<M: TypeNameMap>(v: VariantFormatV, m: M) -> VariantFormatV {
    match v {
        VariantFormatV::Unit => VariantFormatV::Unit,
        VariantFormatV::NewType(f) => VariantFormatV::NewType(format_names(f, m)),
        VariantFormatV::Tuple(s) => VariantFormatV::Tuple(formats_names(s, m)),
        VariantFormatV::Struct(s) => VariantFormatV::Struct(nameds_names(s, m)),
    }
}

pub open spec fn variants_names<M: TypeNameMap>(s: Seq<(u32, NamedV<VariantFormatV>)>, m: M) -> Seq<(u32, NamedV<VariantFormatV>)> {
    s.map_values(|e: (u32, NamedV<VariantFormatV>)| (e.0, NamedV { name: e.1.name, doc: e.1.doc, value: variant_names(e.1.value, m) }))
}

/// `c` with every type name inside it mapped by `m`.
pub open spec fn container_names<M: TypeNameMap>(c: ContainerFormatV, m: M) -> ContainerFormatV {
    match c {
        ContainerFormatV::UnitStruct(d) => ContainerFormatV::UnitStruct(d),
        ContainerFormatV::NewTypeStruct(f, d) => ContainerFormatV::NewTypeStruct(format_names(f, m), d),
        ContainerFormatV::TupleStruct(s, d) => ContainerFormatV::TupleStruct(formats_names(s, m), d),
        ContainerFormatV::Struct(s, d) => ContainerFormatV::Struct(nameds_names(s, m), d),
        ContainerFormatV::Enum(vs, d) => ContainerFormatV::Enum(variants_names(vs, m), d),
    }
}

/// The registry with the type names inside each container mapped by `m`; the names of
/// the containers themselves are kept.
pub open spec fn registry_names<M: TypeNameMap>(r: Seq<(QualifiedTypeNameV, ContainerFormatV)>, m: M) -> Seq<(QualifiedTypeNameV, ContainerFormatV)> {
    r.map_values(|e: (QualifiedTypeNameV, ContainerFormatV)| (e.0, container_names(e.1, m)))
}

/// Maps the type names inside a format.
pub fn map_format_names<M: TypeNameMap>(f: &Format, m: &M) -> (r: Format)
    ensures
        r@ == format_names(f@, *m),
    decreases f, 0nat,
{
    match f {
        Format::TypeName(q) => Format::TypeName(m.apply(q)),
        Format::Option(g) => Format::Option(Box::new(map_format_names(g, m))),
        Format::Sequence(g) => Format::Sequence(Box::new(map_format_names(g, m))),
        Format::SetOf(g) => Format::SetOf(Box::new(map_format_names(g, m))),
        Format::MapOf { key, value } => Format::MapOf {
            key: Box::new(map_format_names(key, m)),
            value: Box::new(map_format_names(value, m)),
        },
        Format::Tuple(v) => Format::Tuple(map_formats_names(v, m)),
        Format::TupleArray { content, size } => Format::TupleArray {
            content: Box::new(map_format_names(content, m)),
            size: *size,
        },
        _ => f.duplicate(),
    }
}

/// Maps the type names inside each format of a vector.
pub fn map_formats_names<M: TypeNameMap>(v: &Vec<Format>, m: &M) -> (r: Vec<Format>)
    ensures
        formats_view(r@) == formats_names(formats_view(v@), *m),
    decreases v@, 1nat,
{
    let mut out: Vec<Format> = Vec::new();
    let mut i: usize = 0;
    while i < v.len()
        invariant
            i <= v.len(),
            formats_view(out@) == formats_names(formats_view(v@.take(i as int)), *m),
        decreases v.len() - i,
    {
        proof {
            assert(decreases_to!(v@ => v@[i as int]));
        }
        let g = map_format_names(&v[i], m);
        let ghost before = out@;
        out.push(g);
        proof {
            assert(out@.drop_last() =~= before);
            assert(v@.take(i + 1).drop_last() =~= v@.take(i as int));
            assert(formats_view(v@.take(i + 1)).drop_last() == formats_view(v@.take(i as int)));
        }
        i = i + 1;
    }
    assert(v@.take(v.len() as int) =~= v@);
    out
}

/// Maps the type names inside each field.
pub fn map_nameds_names<M: TypeNameMap>(v: &Vec<Named<Format>>, m: &M) -> (r: Vec<Named<Format>>)
    ensures
        seq_view(r@) == nameds_names(seq_view(v@), *m),
{
    let mut out: Vec<Named<Format>> = Vec::new();
    let mut i: usize = 0;
    while i < v.len()
        invariant
            i <= v.len(),
            out.len() == i,
            forall|j: int| 0 <= j < i ==> out@[j]@ == named_names(v@[j]@, *m),
        decreases v.len() - i,
    {
        let n = &v[i];
        out.push(Named { name: n.name.clone(), doc: n.doc.duplicate(), value: map_format_names(&n.value, m) });
        i = i + 1;
    }
    assert(seq_view(out@) =~= nameds_names(seq_view(v@), *m));
    out
}

/// Maps the type names inside a variant.
pub fn map_variant_names<M: TypeNameMap>(v: &VariantFormat, m: &M) -> (r: VariantFormat)
    ensures
        r@ == variant_names(v@, *m),
{
    match v {
        VariantFormat::Unit => VariantFormat::Unit,
        VariantFormat::NewType(f) => VariantFormat::NewType(Box::new(map_format_names(f, m))),
        VariantFormat::Tuple(fs) => {
            let r = map_formats_names(fs, m);
            proof {
                lemma_formats_view(r@);
                lemma_formats_view(fs@);
            }
            VariantFormat::Tuple(r)
        },
        VariantFormat::Struct(ns) => VariantFormat::Struct(map_nameds_names(ns, m)),
    }
}

/// Maps the type names inside each variant.
pub fn map_variants_names<M: TypeNameMap>(vs: &VariantMap, m: &M) -> (r: VariantMap)
    ensures
        r@ == variants_names(vs@, *m),
{
    let mut out = vs.duplicate();
    let mut i: usize = 0;
    while i < out.len()
        invariant
            i <= out@.len(),
            out@.len() == vs@.len(),
            forall|j: int| 0 <= j < i ==> out@[j] == variants_names(vs@, *m)[j],
            forall|j: int| i <= j < out@.len() ==> out@[j] == vs@[j],
        decreases out@.len() - i,
    {
        let (_k, n) = out.entry(i);
        let nv = Named { name: n.name.clone(), doc: n.doc.duplicate(), value: map_variant_names(&n.value, m) };
        out.set_value(i, nv);
        i = i + 1;
    }
    assert(out@ =~= variants_names(vs@, *m));
    out
}

/// Maps the type names inside a container.
pub fn map_container_names<M: TypeNameMap>(c: &ContainerFormat, m: &M) -> (r: ContainerFormat)
    ensures
        r@ == container_names(c@, *m),
{
    match c {
        ContainerFormat::UnitStruct(d) => ContainerFormat::UnitStruct(d.duplicate()),
        ContainerFormat::NewTypeStruct(f, d) => ContainerFormat::NewTypeStruct(Box::new(map_format_names(f, m)), d.duplicate()),
        ContainerFormat::TupleStruct(fs, d) => {
            let r = map_formats_names(fs, m);
            proof {
                lemma_formats_view(r@);
                lemma_formats_view(fs@);
            }
            ContainerFormat::TupleStruct(r, d.duplicate())
        },
        ContainerFormat::Struct(ns, d) => ContainerFormat::Struct(map_nameds_names(ns, m), d.duplicate()),
        ContainerFormat::Enum(vs, d) => ContainerFormat::Enum(map_variants_names(vs, m), d.duplicate()),
    }
}

/// A copy of the registry with the type names inside each container mapped by `m`.
pub fn map_registry_names<M: TypeNameMap>(registry: &Registry, m: &M) -> (r: Registry)
    ensures
        r@ == registry_names(registry@, *m),
{
    let mut out = registry.duplicate();
    let mut i: usize = 0;
    while i < out.len()
        invariant
            i <= out@.len(),
            out@.len() == registry@.len(),
            forall|j: int| 0 <= j < i ==> out@[j] == registry_names(registry@, *m)[j],
            forall|j: int| i <= j < out@.len() ==> out@[j] == registry@[j],
        decreases out@.len() - i,
    {
        let (_k, c) = out.entry(i);
        let nc = map_container_names(c, m);
        out.set_value(i, nc);
        i = i + 1;
    }
    assert(out@ =~= registry_names(registry@, *m));
    out
}

} // verus!

verus! {

/// Two renamings that agree on every name agree on every format.
pub proof fn lemma_format_names_agree<M1: TypeNameMap, M2: TypeNameMap>(f: FormatV, m1: M1, m2: M2)
    requires
        forall|q: QualifiedTypeNameV| m1.map_name(q) == m2.map_name(q),
    ensures
        format_names(f, m1) == format_names(f, m2),
    decreases f,
{
    match f {
        FormatV::Option(g) | FormatV::Sequence(g) | FormatV::SetOf(g) => lemma_format_names_agree(*g, m1, m2),
        FormatV::MapOf { key, value } => {
            lemma_format_names_agree(*key, m1, m2);
            lemma_format_names_agree(*value, m1, m2);
        },
        FormatV::Tuple(s) => lemma_formats_names_agree(s, m1, m2),
        FormatV::TupleArray { content, .. } => lemma_format_names_agree(*content, m1, m2),
        _ => {},
    }
}

pub proof fn lemma_formats_names_agree<M1: TypeNameMap, M2: TypeNameMap>(s: Seq<FormatV>, m1: M1, m2: M2)
    requires
        forall|q: QualifiedTypeNameV| m1.map_name(q) == m2.map_name(q),
    ensures
        formats_names(s, m1) == formats_names(s, m2),
    decreases s,
{
    if s.len() > 0 {
        lemma_formats_names_agree(s.drop_last(), m1, m2);
        lemma_format_names_agree(s.last(), m1, m2);
    }
}

/// Two renamings that agree on every name agree on every registry.
pub proof fn lemma_registry_names_agree<M1: TypeNameMap, M2: TypeNameMap>(
    r: Seq<(QualifiedTypeNameV, ContainerFormatV)>,
    m1: M1,
    m2: M2,
)
    requires
        forall|q: QualifiedTypeNameV| m1.map_name(q) == m2.map_name(q),
    ensures
        registry_names(r, m1) == registry_names(r, m2),
{
    assert forall|i: int| 0 <= i < r.len() implies container_names(r[i].1, m1) == container_names(r[i].1, m2) by {
        match r[i].1 {
            ContainerFormatV::NewTypeStruct(f, _) => lemma_format_names_agree(f, m1, m2),
            ContainerFormatV::TupleStruct(s, _) => lemma_formats_names_agree(s, m1, m2),
            ContainerFormatV::Struct(fs, _) => {
                assert forall|j: int| 0 <= j < fs.len() implies named_names(fs[j], m1) == named_names(fs[j], m2) by {
                    lemma_format_names_agree(fs[j].value, m1, m2);
                }
                assert(nameds_names(fs, m1) =~= nameds_names(fs, m2));
            },
            ContainerFormatV::Enum(vs, _) => {
                assert forall|j: int| 0 <= j < vs.len() implies variant_names(vs[j].1.value, m1) == variant_names(vs[j].1.value, m2) by {
                    match vs[j].1.value {
                        VariantFormatV::NewType(f) => lemma_format_names_agree(f, m1, m2),
                        VariantFormatV::Tuple(s) => lemma_formats_names_agree(s, m1, m2),
                        VariantFormatV::Struct(fs) => {
                            assert forall|k: int| 0 <= k < fs.len() implies named_names(fs[k], m1) == named_names(fs[k], m2) by {
                                lemma_format_names_agree(fs[k].value, m1, m2);
                            }
                            assert(nameds_names(fs, m1) =~= nameds_names(fs, m2));
                        },
                        _ => {},
                    }
                }
                assert(variants_names(vs, m1) =~= variants_names(vs, m2));
            },
            _ => {},
        }
    }
    assert(registry_names(r, m1) =~= registry_names(r, m2));
}

} // verus!

verus! {

/// A renaming that keeps every name keeps every format.
pub proof fn lemma_format_names_identity<M: TypeNameMap>(f: FormatV, m: M)
    requires
        forall|q: QualifiedTypeNameV| m.map_name(q) == q,
    ensures
        format_names(f, m) == f,
    decreases f,
{
    match f {
        FormatV::Option(g) | FormatV::Sequence(g) | FormatV::SetOf(g) => lemma_format_names_identity(*g, m),
        FormatV::MapOf { key, value } => {
            lemma_format_names_identity(*key, m);
            lemma_format_names_identity(*value, m);
        },
        FormatV::Tuple(s) => lemma_formats_names_identity(s, m),
        FormatV::TupleArray { content, .. } => lemma_format_names_identity(*content, m),
        _ => {},
    }
}

pub proof fn lemma_formats_names_identity<M: TypeNameMap>(s: Seq<FormatV>, m: M)
    requires
        forall|q: QualifiedTypeNameV| m.map_name(q) == q,
    ensures
        formats_names(s, m) == s,
    decreases s,
{
    if s.len() > 0 {
        lemma_formats_names_identity(s.drop_last(), m);
        lemma_format_names_identity(s.last(), m);
        assert(s.drop_last().push(s.last()) =~= s);
    } else {
        assert(s =~= Seq::<FormatV>::empty());
    }
}

proof fn lemma_nameds_names_identity<M: TypeNameMap>(fs: Seq<NamedV<FormatV>>, m: M)
    requires
        forall|q: QualifiedTypeNameV| m.map_name(q) == q,
    ensures
        nameds_names(fs, m) == fs,
{
    assert forall|j: int| 0 <= j < fs.len() implies named_names(fs[j], m) == fs[j] by {
        lemma_format_names_identity(fs[j].value, m);
    }
    assert(nameds_names(fs, m) =~= fs);
}

/// A renaming that keeps every name keeps every registry.
pub proof fn lemma_registry_names_identity<M: TypeNameMap>(r: Seq<(QualifiedTypeNameV, ContainerFormatV)>, m: M)
    requires
        forall|q: QualifiedTypeNameV| m.map_name(q) == q,
    ensures
        registry_names(r, m) == r,
{
    assert forall|i: int| 0 <= i < r.len() implies container_names(r[i].1, m) == r[i].1 by {
        match r[i].1 {
            ContainerFormatV::NewTypeStruct(f, _) => lemma_format_names_identity(f, m),
            ContainerFormatV::TupleStruct(s, _) => lemma_formats_names_identity(s, m),
            ContainerFormatV::Struct(fs, _) => lemma_nameds_names_identity(fs, m),
            ContainerFormatV::Enum(vs, _) => {
                assert forall|j: int| 0 <= j < vs.len() implies variant_names(vs[j].1.value, m) == vs[j].1.value by {
                    match vs[j].1.value {
                        VariantFormatV::NewType(f) => lemma_format_names_identity(f, m),
                        VariantFormatV::Tuple(s) => lemma_formats_names_identity(s, m),
                        VariantFormatV::Struct(fs) => lemma_nameds_names_identity(fs, m),
                        _ => {},
                    }
                }
                assert(variants_names(vs, m) =~= vs);
            },
            _ => {},
        }
    }
    assert(registry_names(r, m) =~= r);
}

} // verus!

verus! {

/// Whether `a` and `b` are containers of the same kind and documentation, with the same
/// number of elements, the same field names, and the same variant indices and names.
pub open spec fn same_shape(a: ContainerFormatV, b: ContainerFormatV) -> bool {
    match (a, b) {
        (ContainerFormatV::UnitStruct(d1), ContainerFormatV::UnitStruct(d2)) => d1 == d2,
        (ContainerFormatV::NewTypeStruct(_, d1), ContainerFormatV::NewTypeStruct(_, d2)) => d1 == d2,
        (ContainerFormatV::TupleStruct(s1, d1), ContainerFormatV::TupleStruct(s2, d2)) => s1.len() == s2.len() && d1 == d2,
        (ContainerFormatV::Struct(f1, d1), ContainerFormatV::Struct(f2, d2)) => {
            &&& f1.len() == f2.len()
            &&& d1 == d2
            &&& forall|i: int| 0 <= i < f1.len() ==> (#[trigger] f1[i]).name == f2[i].name
        },
        (ContainerFormatV::Enum(v1, d1), ContainerFormatV::Enum(v2, d2)) => {
            &&& v1.len() == v2.len()
            &&& d1 == d2
            &&& forall|i: int| 0 <= i < v1.len() ==> (#[trigger] v1[i]).0 == v2[i].0 && v1[i].1.name == v2[i].1.name
        },
        _ => false,
    }
}

proof fn lemma_formats_names_len<M: TypeNameMap>(s: Seq<FormatV>, m: M)
    ensures
        formats_names(s, m).len() == s.len(),
    decreases s.len(),
{
    if s.len() > 0 {
        lemma_formats_names_len(s.drop_last(), m);
    }
}

/// Mapping the type names of a registry keeps its entries, in order, under the same names,
/// and keeps the shape of each container.
pub proof fn lemma_registry_names_shape<M: TypeNameMap>(r: Seq<(QualifiedTypeNameV, ContainerFormatV)>, m: M)
    ensures
        registry_names(r, m).len() == r.len(),
        forall|i: int| 0 <= i < r.len() ==> (#[trigger] registry_names(r, m)[i]).0 == r[i].0 && same_shape(r[i].1, registry_names(r, m)[i].1),
{
    assert forall|i: int| 0 <= i < r.len() implies (#[trigger] registry_names(r, m)[i]).0 == r[i].0 && same_shape(r[i].1, registry_names(r, m)[i].1) by {
        match r[i].1 {
            ContainerFormatV::TupleStruct(s, _) => lemma_formats_names_len(s, m),
            _ => {},
        }
    }
}

} // verus!
