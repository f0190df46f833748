//! Swift code generator: writes one Swift source file for a registry.
use vstd::prelude::*;

use crate::generation::common::{format_needs_helper, mangle_type, mangled, needs_helper, primitive_name, primitive_name_str};
use crate::generation::config::{CodeGeneratorConfig, Encoding};
use crate::generation::indent::{decimal, indented, put_newline, put_str, unindented, unit_of, usize_to_string, IndentConfig, IndentedWriter, WriterState};
use crate::generation::module::Module;
use crate::generation::swift::emitter::{sw_container, sw_module, sw_type, definition_namespaces, swift_type, write_container, Swift};
use crate::generation::Emitter;
use crate::reflection::format::{formats_view, lemma_formats_view, seq_view, ContainerFormat, ContainerFormatV, Format, FormatV, Named, NamedV, Namespace, NamespaceV, QualifiedTypeName, QualifiedTypeNameV, Registry, VariantFormat, VariantFormatV};
use crate::reflection::visit::{lemma_registry_names_identity, map_registry_names, registry_names, TypeNameMap};
use crate::util::sorted_map::{has_key, keys_increasing, lemma_insert_spec, OrdKey, SortedMap};
use crate::util::text::{concat, concat3, concat4, join_with, joined, lemma_sorted_unique, lex_lt, sorted_texts, strictly_sorted, strings_view};

verus! {

/// The renaming of type names for a Swift module: a type of a namespace with external
/// definitions is named by that namespace and its name, which it already is; every
/// name therefore stays as it is.
pub struct SwiftTypeNames<'a> {
    pub config: &'a CodeGeneratorConfig,
}

impl<'a> TypeNameMap for SwiftTypeNames<'a> {
    open spec fn map_name(&self, q: QualifiedTypeNameV) -> QualifiedTypeNameV {
        match q.namespace {
            NamespaceV::Named(ns) => if has_key(self.config.external_definitions@, ns) {
                QualifiedTypeNameV { namespace: NamespaceV::Named(ns), name: q.name }
            } else {
                q
            },
            NamespaceV::Root => q,
        }
    }

    fn apply(&self, q: &QualifiedTypeName) -> (r: QualifiedTypeName) {
        match &q.namespace {
            Namespace::Named(ns) => if self.config.external_definitions.contains_key(ns) {
                QualifiedTypeName::namespaced(ns.clone(), q.name.clone())
            } else {
                q.clone()
            },
            Namespace::Root => q.clone(),
        }
    }
}

/// The Swift expression that serializes `value` of format `f`: a method of a named type,
/// a helper function for a composite, a serializer method for a primitive.
pub open spec fn sw_quote_serialize(value: Seq<char>, f: FormatV) -> Seq<char> {
    if f is TypeName {
        "try "@ + value + ".serialize(serializer: serializer)"@
    } else if needs_helper(f) {
        "try serialize_"@ + mangled(f) + "(value: "@ + value + ", serializer: serializer)"@
    } else {
        "try serializer.serialize_"@ + primitive_name(f) + "(value: "@ + value + ")"@
    }
}

/// The Swift expression that deserializes a value of format `f`.
pub open spec fn sw_quote_deserialize(f: FormatV) -> Seq<char> {
    match f {
        FormatV::TypeName(q) => "try "@ + q.name + ".deserialize(deserializer: deserializer)"@,
        _ => if needs_helper(f) {
            "try deserialize_"@ + mangled(f) + "(deserializer: deserializer)"@
        } else {
            "try deserializer.deserialize_"@ + primitive_name(f) + "()"@
        },
    }
}

pub(crate) fn quote_serialize_value(value: &str, f: &Format) -> (r: String)
    ensures
        r@ == sw_quote_serialize(value@, f@),
{
    match f {
        Format::TypeName(_) => concat3("try ", value, ".serialize(serializer: serializer)"),
        _ => if format_needs_helper(f) {
            let mut r = concat4("try serialize_", mangle_type(f).as_str(), "(value: ", value);
            r.append(", serializer: serializer)");
            r
        } else {
            let mut r = concat4("try serializer.serialize_", primitive_name_str(f), "(value: ", value);
            r.append(")");
            r
        },
    }
}

fn quote_deserialize(f: &Format) -> (r: String)
    ensures
        r@ == sw_quote_deserialize(f@),
{
    match f {
        Format::TypeName(q) => concat3("try ", q.name.as_str(), ".deserialize(deserializer: deserializer)"),
        _ => if format_needs_helper(f) {
            concat3("try deserialize_", mangle_type(f).as_str(), "(deserializer: deserializer)")
        } else {
            concat3("try deserializer.deserialize_", primitive_name_str(f), "()")
        },
    }
}

/// The lines serializing the elements `value.field0`, `value.field1`, ... of a tuple.
pub open spec fn sw_tuple_lines(s: Seq<FormatV>) -> Seq<char>
    decreases s.len(),
{
    if s.len() == 0 {
        Seq::empty()
    } else {
        sw_tuple_lines(s.drop_last()) + sw_quote_serialize("value.field"@ + decimal((s.len() - 1) as nat), s.last()) + "\n"@
    }
}

/// The body of the serialization helper for a composite format.
pub open spec fn sw_serialize_body(f: FormatV) -> Seq<char> {
    match f {
        FormatV::Option(g) => "\nif let value = value {\n    try serializer.serialize_option_tag(value: true)\n    "@
            + sw_quote_serialize("value"@, *g)
            + "\n} else {\n    try serializer.serialize_option_tag(value: false)\n}\n"@,
        FormatV::Sequence(g) => "\ntry serializer.serialize_len(value: value.count)\nfor item in value {\n    "@
            + sw_quote_serialize("item"@, *g) + "\n}\n"@,
        FormatV::SetOf(g) => "\ntry serializer.serialize_len(value: value.count)\nfor item in value {\n    "@
            + sw_quote_serialize("item"@, *g) + "\n}\n"@,
        FormatV::MapOf { key, value } => "\ntry serializer.serialize_len(value: value.count)\nvar offsets : [Int]  = []\nfor (key, value) in value {\n    offsets.append(serializer.get_buffer_offset())\n    "@
            + sw_quote_serialize("key"@, *key) + "\n    "@ + sw_quote_serialize("value"@, *value)
            + "\n}\nserializer.sort_map_entries(offsets: offsets)\n"@,
        FormatV::Tuple(s) => "\n"@ + sw_tuple_lines(s),
        FormatV::TupleArray { content, .. } => "\nfor item in value {\n    "@ + sw_quote_serialize("item"@, *content) + "\n}\n"@,
        _ => Seq::empty(),
    }
}

/// The body of the deserialization helper for a composite format.
pub open spec fn sw_deserialize_body(f: FormatV) -> Seq<char> {
    match f {
        FormatV::Option(g) => "\nlet tag = try deserializer.deserialize_option_tag()\nif tag {\n    return "@
            + sw_quote_deserialize(*g) + "\n} else {\n    return nil\n}\n"@,
        FormatV::Sequence(g) => "\nlet length = try deserializer.deserialize_len()\nvar obj : ["@ + sw_type(*g, true)
            + "] = []\nfor _ in 0..<length {\n    obj.append("@ + sw_quote_deserialize(*g) + ")\n}\nreturn obj\n"@,
        FormatV::SetOf(g) => "\nlet length = try deserializer.deserialize_len()\nvar obj : ["@ + sw_type(*g, true)
            + "] = []\nfor _ in 0..<length {\n    obj.append("@ + sw_quote_deserialize(*g) + ")\n}\nreturn obj\n"@,
        FormatV::MapOf { key, value } => "\nlet length = try deserializer.deserialize_len()\nvar obj : ["@ + sw_type(*key, true) + ": "@
            + sw_type(*value, true)
            + "] = [:]\nvar previous_slice = Slice(start: 0, end: 0)\nfor i in 0..<length {\n    var slice = Slice(start: 0, end: 0)\n    slice.start = deserializer.get_buffer_offset()\n    let key = "@
            + sw_quote_deserialize(*key)
            + "\n    slice.end = deserializer.get_buffer_offset()\n    if i > 0 {\n        try deserializer.check_that_key_slices_are_increasing(key1: previous_slice, key2: slice)\n    }\n    previous_slice = slice\n    obj[key] = "@
            + sw_quote_deserialize(*value) + "\n}\nreturn obj\n"@,
        FormatV::Tuple(s) => "\nreturn Tuple"@ + decimal(s.len()) + ".init("@
            + joined(s.map_values(|g: FormatV| sw_quote_deserialize(g)), ", "@) + ")\n"@,
        FormatV::TupleArray { content, size } => "\nvar obj : ["@ + sw_type(*content, true) + "] = []\nfor _ in 0..<"@
            + decimal(size as nat) + " {\n    obj.append("@ + sw_quote_deserialize(*content) + ")\n}\nreturn obj\n"@,
        _ => Seq::empty(),
    }
}

/// The serialization helper function `serialize_<name>` for a composite format.
pub open spec fn sw_serialization_helper(w: WriterState, name: Seq<char>, f: FormatV) -> WriterState {
    let w = put_str(w, "func serialize_"@ + name + "<S: Serializer>(value: "@ + sw_type(f, true) + ", serializer: S) throws {"@);
    put_str(unindented(put_str(indented(w), sw_serialize_body(f))), "}\n\n"@)
}

/// The deserialization helper function `deserialize_<name>` for a composite format.
pub open spec fn sw_deserialization_helper(w: WriterState, name: Seq<char>, f: FormatV) -> WriterState {
    let w = put_str(w, "func deserialize_"@ + name + "<D: Deserializer>(deserializer: D) throws -> "@ + sw_type(f, true) + " {"@);
    put_str(unindented(put_str(indented(w), sw_deserialize_body(f))), "}\n\n"@)
}

pub(crate) fn serialize_body(f: &Format) -> (r: String)
    requires
        needs_helper(f@),
    ensures
        r@ == sw_serialize_body(f@),
{
    match f {
        Format::Option(g) => concat3(
            "\nif let value = value {\n    try serializer.serialize_option_tag(value: true)\n    ",
            quote_serialize_value("value", g).as_str(),
            "\n} else {\n    try serializer.serialize_option_tag(value: false)\n}\n",
        ),
        Format::Sequence(g) | Format::SetOf(g) => concat3(
            "\ntry serializer.serialize_len(value: value.count)\nfor item in value {\n    ",
            quote_serialize_value("item", g).as_str(),
            "\n}\n",
        ),
        Format::MapOf { key, value } => {
            let mut r = concat4(
                "\ntry serializer.serialize_len(value: value.count)\nvar offsets : [Int]  = []\nfor (key, value) in value {\n    offsets.append(serializer.get_buffer_offset())\n    ",
                quote_serialize_value("key", key).as_str(),
                "\n    ",
                quote_serialize_value("value", value).as_str(),
            );
            r.append("\n}\nserializer.sort_map_entries(offsets: offsets)\n");
            r
        },
        Format::Tuple(v) => {
            proof {
                lemma_formats_view(v@);
            }
            let ghost s = formats_view(v@);
            let mut r = String::from_str("\n");
            let mut i: usize = 0;
            assert(s.take(0) =~= Seq::<FormatV>::empty());
            while i < v.len()
                invariant
                    i <= v.len() == s.len(),
                    s == formats_view(v@),
                    formats_view(v@) == crate::reflection::format::seq_view(v@),
                    r@ == "\n"@ + sw_tuple_lines(s.take(i as int)),
                decreases v.len() - i,
            {
                let expr = concat("value.field", usize_to_string(i).as_str());
                let line = quote_serialize_value(expr.as_str(), &v[i]);
                let ghost before = r@;
                r.append(line.as_str());
                r.append("\n");
                proof {
                    assert(s.take(i + 1).drop_last() =~= s.take(i as int));
                    assert(s[i as int] == v@[i as int]@);
                    assert(r@ =~= "\n"@ + sw_tuple_lines(s.take(i + 1)));
                }
                i = i + 1;
            }
            assert(s.take(v.len() as int) =~= s);
            r
        },
        Format::TupleArray { content, .. } => concat3(
            "\nfor item in value {\n    ",
            quote_serialize_value("item", content).as_str(),
            "\n}\n",
        ),
        _ => String::new(),
    }
}

fn deserialize_body(f: &Format) -> (r: String)
    requires
        needs_helper(f@),
    ensures
        r@ == sw_deserialize_body(f@),
{
    match f {
        Format::Option(g) => concat3(
            "\nlet tag = try deserializer.deserialize_option_tag()\nif tag {\n    return ",
            quote_deserialize(g).as_str(),
            "\n} else {\n    return nil\n}\n",
        ),
        Format::Sequence(g) | Format::SetOf(g) => {
            let mut r = concat4(
                "\nlet length = try deserializer.deserialize_len()\nvar obj : [",
                swift_type(g, true).as_str(),
                "] = []\nfor _ in 0..<length {\n    obj.append(",
                quote_deserialize(g).as_str(),
            );
            r.append(")\n}\nreturn obj\n");
            r
        },
        Format::MapOf { key, value } => {
            let mut r = concat4(
                "\nlet length = try deserializer.deserialize_len()\nvar obj : [",
                swift_type(key, true).as_str(),
                ": ",
                swift_type(value, true).as_str(),
            );
            r.append(
                "] = [:]\nvar previous_slice = Slice(start: 0, end: 0)\nfor i in 0..<length {\n    var slice = Slice(start: 0, end: 0)\n    slice.start = deserializer.get_buffer_offset()\n    let key = ",
            );
            r.append(quote_deserialize(key).as_str());
            r.append(
                "\n    slice.end = deserializer.get_buffer_offset()\n    if i > 0 {\n        try deserializer.check_that_key_slices_are_increasing(key1: previous_slice, key2: slice)\n    }\n    previous_slice = slice\n    obj[key] = ",
            );
            r.append(quote_deserialize(value).as_str());
            r.append("\n}\nreturn obj\n");
            r
        },
        Format::Tuple(v) => {
            proof {
                lemma_formats_view(v@);
            }
            let ghost s = formats_view(v@);
            let mut parts: Vec<String> = Vec::new();
            let mut i: usize = 0;
            while i < v.len()
                invariant
                    i <= v.len() == s.len(),
                    s == formats_view(v@),
                    formats_view(v@) == crate::reflection::format::seq_view(v@),
                    strings_view(parts@) == s.take(i as int).map_values(|g: FormatV| sw_quote_deserialize(g)),
                decreases v.len() - i,
            {
                parts.push(quote_deserialize(&v[i]));
                proof {
                    let a = strings_view(parts@);
                    let b = s.take(i + 1).map_values(|g: FormatV| sw_quote_deserialize(g));
                    let c = s.take(i as int).map_values(|g: FormatV| sw_quote_deserialize(g));
                    assert(c.len() == i);
                    assert(a.len() == parts@.len());
                    assert forall|j: int| 0 <= j < a.len() implies a[j] == b[j] by {
                        if j < i {
                            assert(a[j] == c[j]);
                        } else {
                            assert(s[j] == v@[j]@);
                        }
                    }
                    assert(a =~= b);
                }
                i = i + 1;
            }
            assert(s.take(v.len() as int) =~= s);
            let mut r = concat3("\nreturn Tuple", usize_to_string(v.len()).as_str(), ".init(");
            r.append(join_with(&parts, ", ").as_str());
            r.append(")\n");
            r
        },
        Format::TupleArray { content, size } => {
            let mut r = concat4(
                "\nvar obj : [",
                swift_type(content, true).as_str(),
                "] = []\nfor _ in 0..<",
                usize_to_string(*size).as_str(),
            );
            r.append(" {\n    obj.append(");
            r.append(quote_deserialize(content).as_str());
            r.append(")\n}\nreturn obj\n");
            r
        },
        _ => String::new(),
    }
}

fn output_serialization_helper(w: &mut IndentedWriter, name: &str, f: &Format)
    requires
        needs_helper(f@),
    ensures
        final(w)@ == sw_serialization_helper(old(w)@, name@, f@),
{
    let mut header = concat4("func serialize_", name, "<S: Serializer>(value: ", swift_type(f, true).as_str());
    header.append(", serializer: S) throws {");
    w.write_string(&header);
    w.indent();
    w.write_string(&serialize_body(f));
    w.unindent();
    w.write_str("}\n\n");
}

fn output_deserialization_helper(w: &mut IndentedWriter, name: &str, f: &Format)
    requires
        needs_helper(f@),
    ensures
        final(w)@ == sw_deserialization_helper(old(w)@, name@, f@),
{
    let mut header = concat4("func deserialize_", name, "<D: Deserializer>(deserializer: D) throws -> ", swift_type(f, true).as_str());
    header.append(" {");
    w.write_string(&header);
    w.indent();
    w.write_string(&deserialize_body(f));
    w.unindent();
    w.write_str("}\n\n");
}

} // verus!

verus! {

/// Every format inside `f`, `f` included, each after the formats inside it, left to right.
pub open spec fn subformats(f: FormatV) -> Seq<FormatV>
    decreases f,
{
    match f {
        FormatV::Option(g) | FormatV::Sequence(g) | FormatV::SetOf(g) => subformats(*g).push(f),
        FormatV::MapOf { key, value } => (subformats(*key) + subformats(*value)).push(f),
        FormatV::Tuple(s) => subformats_list(s).push(f),
        FormatV::TupleArray { content, .. } => subformats(*content).push(f),
        _ => seq![f],
    }
}

/// The subformats of each format of `s`, in order.
pub open spec fn subformats_list(s: Seq<FormatV>) -> Seq<FormatV>
    decreases s,
{
    if s.len() == 0 {
        Seq::empty()
    } else {
        subformats_list(s.drop_last()) + subformats(s.last())
    }
}

/// The subformats of the fields, in field order.
pub open spec fn nameds_subformats(s: Seq<NamedV<FormatV>>) -> Seq<FormatV>
    decreases s.len(),
{
    if s.len() == 0 {
        Seq::empty()
    } else {
        nameds_subformats(s.drop_last()) + subformats(s.last().value)
    }
}

/// The subformats of a variant.
pub open spec fn variant_subformats(v: VariantFormatV) -> Seq<FormatV> {
    match v {
        VariantFormatV::Unit => Seq::empty(),
        VariantFormatV::NewType(f) => subformats(f),
        VariantFormatV::Tuple(s) => subformats_list(s),
        VariantFormatV::Struct(fs) => nameds_subformats(fs),
    }
}

/// The subformats of the variants, in variant order.
pub open spec fn variants_subformats(s: Seq<(u32, NamedV<VariantFormatV>)>) -> Seq<FormatV>
    decreases s.len(),
{
    if s.len() == 0 {
        Seq::empty()
    } else {
        variants_subformats(s.drop_last()) + variant_subformats(s.last().1.value)
    }
}

/// The subformats of a container.
pub open spec fn container_subformats(c: ContainerFormatV) -> Seq<FormatV> {
    match c {
        ContainerFormatV::UnitStruct(_) => Seq::empty(),
        ContainerFormatV::NewTypeStruct(f, _) => subformats(f),
        ContainerFormatV::TupleStruct(s, _) => subformats_list(s),
        ContainerFormatV::Struct(fs, _) => nameds_subformats(fs),
        ContainerFormatV::Enum(vs, _) => variants_subformats(vs),
    }
}

/// The subformats of the containers of a registry, in registry order.
pub open spec fn entries_subformats(s: Seq<(QualifiedTypeNameV, ContainerFormatV)>) -> Seq<FormatV>
    decreases s.len(),
{
    if s.len() == 0 {
        Seq::empty()
    } else {
        entries_subformats(s.drop_last()) + container_subformats(s.last().1)
    }
}

fn push_subformats(f: &Format, out: &mut Vec<Format>)
    ensures
        seq_view(final(out)@) == seq_view(old(out)@) + subformats(f@),
    decreases f, 0nat,
{
    let ghost before = seq_view(out@);
    match f {
        Format::Option(g) => {
            push_subformats(g, out);
            let ghost mid = seq_view(out@);
            out.push(f.clone());
            assert(seq_view(out@) =~= mid.push(f@));
            assert(subformats(f@) == subformats(g@).push(f@));
            assert(seq_view(out@) =~= before + subformats(f@));
        },
        Format::Sequence(g) => {
            push_subformats(g, out);
            let ghost mid = seq_view(out@);
            out.push(f.clone());
            assert(seq_view(out@) =~= mid.push(f@));
            assert(subformats(f@) == subformats(g@).push(f@));
            assert(seq_view(out@) =~= before + subformats(f@));
        },
        Format::SetOf(g) => {
            push_subformats(g, out);
            let ghost mid = seq_view(out@);
            out.push(f.clone());
            assert(seq_view(out@) =~= mid.push(f@));
            assert(subformats(f@) == subformats(g@).push(f@));
            assert(seq_view(out@) =~= before + subformats(f@));
        },
        Format::MapOf { key, value } => {
            push_subformats(key, out);
            push_subformats(value, out);
            let ghost mid = seq_view(out@);
            out.push(f.clone());
            assert(seq_view(out@) =~= mid.push(f@));
            assert(mid =~= before + (subformats(key@) + subformats(value@)));
            assert(subformats(f@) == (subformats(key@) + subformats(value@)).push(f@));
            assert(seq_view(out@) =~= before + subformats(f@));
        },
        Format::Tuple(v) => {
            push_subformats_list(v, out);
            let ghost mid = seq_view(out@);
            out.push(f.clone());
            assert(seq_view(out@) =~= mid.push(f@));
            let ghost l = subformats_list(formats_view(v@));
            assert(mid == before + l);
            assert(subformats(f@) == l.push(f@));
            assert((before + l).push(f@) =~= before + l.push(f@));
        },
        Format::TupleArray { content, .. } => {
            push_subformats(content, out);
            let ghost mid = seq_view(out@);
            out.push(f.clone());
            assert(seq_view(out@) =~= mid.push(f@));
            let ghost l = subformats(content@);
            assert(mid == before + l);
            assert(subformats(f@) == l.push(f@));
            assert((before + l).push(f@) =~= before + l.push(f@));
        },
        _ => {
            out.push(f.clone());
            assert(seq_view(out@) =~= before + subformats(f@));
        },
    }
}

fn push_subformats_list(v: &Vec<Format>, out: &mut Vec<Format>)
    ensures
        seq_view(final(out)@) == seq_view(old(out)@) + subformats_list(formats_view(v@)),
    decreases v@, 1nat,
{
    let ghost before = seq_view(out@);
    let mut i: usize = 0;
    assert(formats_view(v@.take(0)) =~= Seq::<FormatV>::empty());
    assert(before + subformats_list(Seq::<FormatV>::empty()) =~= before);
    while i < v.len()
        invariant
            i <= v.len(),
            seq_view(out@) == before + subformats_list(formats_view(v@.take(i as int))),
        decreases v.len() - i,
    {
        proof {
            assert(decreases_to!(v@ => v@[i as int]));
        }
        push_subformats(&v[i], out);
        proof {
            let x = formats_view(v@.take(i + 1));
            assert(v@.take(i + 1).drop_last() =~= v@.take(i as int));
            assert(x == formats_view(v@.take(i as int)).push(v@[i as int]@));
            assert(x.drop_last() =~= formats_view(v@.take(i as int)));
            assert(x.last() == v@[i as int]@);
            assert(seq_view(out@) =~= before + subformats_list(x));
        }
        i = i + 1;
    }
    assert(v@.take(v.len() as int) =~= v@);
}

fn push_nameds_subformats(v: &Vec<Named<Format>>, out: &mut Vec<Format>)
    ensures
        seq_view(final(out)@) == seq_view(old(out)@) + nameds_subformats(seq_view(v@)),
{
    let ghost before = seq_view(out@);
    let mut i: usize = 0;
    assert(seq_view(v@.take(0)) =~= Seq::<NamedV<FormatV>>::empty());
    assert(before + nameds_subformats(Seq::<NamedV<FormatV>>::empty()) =~= before);
    while i < v.len()
        invariant
            i <= v.len(),
            seq_view(out@) == before + nameds_subformats(seq_view(v@.take(i as int))),
        decreases v.len() - i,
    {
        push_subformats(&v[i].value, out);
        proof {
            let x = seq_view(v@.take(i + 1));
            assert(x.drop_last() =~= seq_view(v@.take(i as int)));
            assert(x.last() == v@[i as int]@);
            assert(seq_view(out@) =~= before + nameds_subformats(x));
        }
        i = i + 1;
    }
    assert(v@.take(v.len() as int) =~= v@);
}

fn push_variant_subformats(v: &VariantFormat, out: &mut Vec<Format>)
    ensures
        seq_view(final(out)@) == seq_view(old(out)@) + variant_subformats(v@),
{
    match v {
        VariantFormat::Unit => {
            assert(seq_view(out@) =~= seq_view(out@) + variant_subformats(v@));
        },
        VariantFormat::NewType(f) => push_subformats(f, out),
        VariantFormat::Tuple(fs) => {
            proof {
                lemma_formats_view(fs@);
            }
            push_subformats_list(fs, out);
        },
        VariantFormat::Struct(ns) => push_nameds_subformats(ns, out),
    }
}

fn push_container_subformats(c: &ContainerFormat, out: &mut Vec<Format>)
    ensures
        seq_view(final(out)@) == seq_view(old(out)@) + container_subformats(c@),
{
    match c {
        ContainerFormat::UnitStruct(_) => {
            assert(seq_view(out@) =~= seq_view(out@) + container_subformats(c@));
        },
        ContainerFormat::NewTypeStruct(f, _) => push_subformats(f, out),
        ContainerFormat::TupleStruct(fs, _) => {
            proof {
                lemma_formats_view(fs@);
            }
            push_subformats_list(fs, out);
        },
        ContainerFormat::Struct(ns, _) => push_nameds_subformats(ns, out),
        ContainerFormat::Enum(vs, _) => {
            let ghost before = seq_view(out@);
            let mut i: usize = 0;
            assert(vs@.take(0) =~= Seq::<(u32, NamedV<VariantFormatV>)>::empty());
            assert(before + variants_subformats(Seq::<(u32, NamedV<VariantFormatV>)>::empty()) =~= before);
            while i < vs.len()
                invariant
                    i <= vs@.len(),
                    seq_view(out@) == before + variants_subformats(vs@.take(i as int)),
                decreases vs@.len() - i,
            {
                let (_k, v) = vs.entry(i);
                push_variant_subformats(&v.value, out);
                proof {
                    let x = vs@.take(i + 1);
                    assert(x.drop_last() =~= vs@.take(i as int));
                    assert(seq_view(out@) =~= before + variants_subformats(x));
                }
                i = i + 1;
            }
            assert(vs@.take(vs@.len() as int) =~= vs@);
        },
    }
}

/// Every format inside the containers of the registry, in registry order.
pub(crate) fn registry_subformats(registry: &Registry) -> (out: Vec<Format>)
    ensures
        seq_view(out@) == entries_subformats(registry@),
{
    let mut out: Vec<Format> = Vec::new();
    let mut i: usize = 0;
    assert(seq_view(out@) =~= entries_subformats(registry@.take(0)));
    while i < registry.len()
        invariant
            i <= registry@.len(),
            seq_view(out@) == entries_subformats(registry@.take(i as int)),
        decreases registry@.len() - i,
    {
        let (_k, c) = registry.entry(i);
        push_container_subformats(c, &mut out);
        proof {
            let x = registry@.take(i + 1);
            assert(x.drop_last() =~= registry@.take(i as int));
        }
        i = i + 1;
    }
    assert(registry@.take(registry@.len() as int) =~= registry@);
    out
}

} // verus!

verus! {

/// The last format of `fs` that needs a helper and whose mangled name is `k`.
pub open spec fn last_helper(fs: Seq<FormatV>, k: Seq<char>) -> Option<FormatV>
    decreases fs.len(),
{
    if fs.len() == 0 {
        None
    } else if needs_helper(fs.last()) && mangled(fs.last()) == k {
        Some(fs.last())
    } else {
        last_helper(fs.drop_last(), k)
    }
}

/// The names of the helpers that the formats `fs` call for.
pub open spec fn helper_names(fs: Seq<FormatV>) -> Set<Seq<char>> {
    Set::new(|k: Seq<char>| last_helper(fs, k) is Some)
}

/// The format that the helper named `k` handles.
pub open spec fn helper_format(fs: Seq<FormatV>, k: Seq<char>) -> FormatV {
    match last_helper(fs, k) {
        Some(f) => f,
        None => FormatV::Unit,
    }
}

/// The helpers for the formats `fs`, by name in increasing order: under each mangled name
/// the last of the composite formats with that name.
pub open spec fn helpers(fs: Seq<FormatV>) -> Seq<(Seq<char>, FormatV)> {
    sorted_texts(helper_names(fs)).map_values(|k: Seq<char>| (k, helper_format(fs, k)))
}

/// The helper functions: for each helper, serialization then deserialization.
pub open spec fn sw_helpers(w: WriterState, d: Seq<(Seq<char>, FormatV)>) -> WriterState
    decreases d.len(),
{
    if d.len() == 0 {
        w
    } else {
        let (k, f) = d.last();
        sw_deserialization_helper(sw_serialization_helper(sw_helpers(w, d.drop_last()), k, f), k, f)
    }
}

/// The keys of a map's entries.
pub open spec fn entry_keys(d: Seq<(Seq<char>, FormatV)>) -> Seq<Seq<char>> {
    d.map_values(|e: (Seq<char>, FormatV)| e.0)
}

/// A helper is called for under name `k` exactly when some format needs a helper and has
/// the mangled name `k`.
pub proof fn lemma_last_helper_some(fs: Seq<FormatV>, k: Seq<char>)
    ensures
        last_helper(fs, k) is Some <==> exists|i: int| 0 <= i < fs.len() && needs_helper(#[trigger] fs[i]) && mangled(fs[i]) == k,
    decreases fs.len(),
{
    if fs.len() > 0 {
        let rest = fs.drop_last();
        lemma_last_helper_some(rest, k);
        if exists|i: int| 0 <= i < fs.len() && needs_helper(#[trigger] fs[i]) && mangled(fs[i]) == k {
            let i = choose|i: int| 0 <= i < fs.len() && needs_helper(#[trigger] fs[i]) && mangled(fs[i]) == k;
            if i < rest.len() {
                assert(rest[i] == fs[i]);
            }
        }
        if exists|i: int| 0 <= i < rest.len() && needs_helper(#[trigger] rest[i]) && mangled(rest[i]) == k {
            let i = choose|i: int| 0 <= i < rest.len() && needs_helper(#[trigger] rest[i]) && mangled(rest[i]) == k;
            assert(rest[i] == fs[i]);
        }
        assert(fs.last() == fs[fs.len() - 1]);
    }
}

/// The helpers that the formats call for, each under its mangled name.
pub(crate) fn collect_helpers(fs: &Vec<Format>) -> (d: SortedMap<String, Format>)
    ensures
        d@ == helpers(seq_view(fs@)),
        strictly_sorted(entry_keys(helpers(seq_view(fs@)))),
        forall|k: Seq<char>|
            #[trigger] entry_keys(helpers(seq_view(fs@))).contains(k) <==> exists|i: int|
                0 <= i < fs@.len() && needs_helper(#[trigger] seq_view(fs@)[i]) && mangled(seq_view(fs@)[i]) == k,
        forall|j: int| 0 <= j < d@.len() ==> needs_helper(#[trigger] d@[j].1),
{
    let ghost all = seq_view(fs@);
    let mut d: SortedMap<String, Format> = SortedMap::new();
    let mut i: usize = 0;
    assert(all.take(0) =~= Seq::<FormatV>::empty());
    while i < fs.len()
        invariant
            i <= fs.len() == all.len(),
            all == seq_view(fs@),
            keys_increasing::<String, Format>(d@),
            forall|k: Seq<char>| has_key(d@, k) <==> last_helper(all.take(i as int), k) is Some,
            forall|j: int| 0 <= j < d@.len() ==> last_helper(all.take(i as int), (#[trigger] d@[j]).0) == Some(d@[j].1),
            forall|j: int| 0 <= j < d@.len() ==> needs_helper(#[trigger] d@[j].1),
        decreases fs.len() - i,
    {
        let f = &fs[i];
        let ghost p = all.take(i as int);
        let ghost p2 = all.take(i + 1);
        let ghost d0 = d@;
        proof {
            assert(p2.drop_last() =~= p);
            assert(p2.last() == f@);
        }
        if format_needs_helper(f) {
            let k = mangle_type(f);
            let ghost kv = k@;
            d.insert(k, f.clone());
            proof {
                lemma_insert_spec::<String, Format>(d0, kv, f@);
                assert(needs_helper(p2.last()) && mangled(p2.last()) == kv);
                assert(last_helper(p2, kv) == Some(f@));
                assert forall|x: Seq<char>| has_key(d@, x) <==> last_helper(p2, x) is Some by {
                    assert(has_key(d@, x) <==> (has_key(d0, x) || x == kv));
                    if x != kv {
                        assert(last_helper(p2, x) == last_helper(p2.drop_last(), x));
                        assert(last_helper(p2, x) == last_helper(p, x));
                    }
                }
                assert forall|j: int| 0 <= j < d@.len() implies needs_helper(#[trigger] d@[j].1) by {
                    if d@[j].0 != kv {
                        let m = choose|m: int| 0 <= m < d0.len() && d0[m] == d@[j];
                        assert(needs_helper(d0[m].1));
                    }
                }
                assert forall|j: int| 0 <= j < d@.len() implies last_helper(p2, (#[trigger] d@[j]).0) == Some(d@[j].1) by {
                    if d@[j].0 != kv {
                        let m = choose|m: int| 0 <= m < d0.len() && d0[m] == d@[j];
                        assert(last_helper(p, d0[m].0) == Some(d0[m].1));
                    }
                }
            }
        } else {
            proof {
                assert forall|x: Seq<char>| last_helper(p2, x) == last_helper(p, x) by {}
                assert forall|j: int| 0 <= j < d@.len() implies last_helper(p2, (#[trigger] d@[j]).0) == Some(d@[j].1) by {
                    assert(last_helper(p2, d@[j].0) == last_helper(p, d@[j].0));
                }
            }
        }
        i = i + 1;
    }
    proof {
        assert(all.take(fs.len() as int) =~= all);
        let keys = entry_keys(d@);
        assert forall|a: int, b: int| 0 <= a < b < keys.len() implies lex_lt(#[trigger] keys[a], #[trigger] keys[b]) by {
            assert(String::key_lt(d@[a].0, d@[b].0));
        }
        assert forall|k: Seq<char>| keys.to_set().contains(k) <==> helper_names(all).contains(k) by {
            if keys.to_set().contains(k) {
                let j = choose|j: int| 0 <= j < keys.len() && keys[j] == k;
                assert(last_helper(all, d@[j].0) == Some(d@[j].1));
            }
            if helper_names(all).contains(k) {
                assert(has_key(d@, k));
                let j = choose|j: int| 0 <= j < d@.len() && d@[j].0 == k;
                assert(keys[j] == k);
            }
        }
        assert(keys.to_set() =~= helper_names(all));
        lemma_sorted_unique(keys, sorted_texts(helper_names(all)));
        let h = helpers(all);
        assert(h.len() == d@.len());
        assert forall|j: int| 0 <= j < h.len() implies h[j] == d@[j] by {
            assert(keys[j] == d@[j].0);
            assert(last_helper(all, d@[j].0) == Some(d@[j].1));
        }
        assert(h =~= d@);
        assert(entry_keys(h) =~= keys);
        assert forall|k: Seq<char>|
            #[trigger] entry_keys(h).contains(k) <==> exists|i: int| 0 <= i < fs@.len() && needs_helper(#[trigger] all[i]) && mangled(all[i]) == k by {
            lemma_last_helper_some(all, k);
            assert(keys.to_set().contains(k) <==> keys.contains(k));
        }
    }
    d
}

/// The serialization and deserialization helpers for every composite format of the
/// registry, by mangled name.
fn output_trait_helpers(w: &mut IndentedWriter, registry: &Registry)
    ensures
        final(w)@ == sw_helpers(old(w)@, helpers(entries_subformats(registry@))),
{
    let fs = registry_subformats(registry);
    let d = collect_helpers(&fs);
    let ghost h = helpers(entries_subformats(registry@));
    let mut i: usize = 0;
    let ghost start = w@;
    assert(h.take(0) =~= Seq::<(Seq<char>, FormatV)>::empty());
    while i < d.len()
        invariant
            i <= d@.len() == h.len(),
            d@ == h,
            h == helpers(entries_subformats(registry@)),
            forall|j: int| 0 <= j < d@.len() ==> needs_helper(#[trigger] d@[j].1),
            w@ == sw_helpers(start, h.take(i as int)),
        decreases d@.len() - i,
    {
        let (name, f) = d.entry(i);
        proof {
            assert(needs_helper(d@[i as int].1));
            assert(h.take(i + 1).drop_last() =~= h.take(i as int));
        }
        output_serialization_helper(w, name.as_str(), f);
        output_deserialization_helper(w, name.as_str(), f);
        i = i + 1;
    }
    assert(h.take(d@.len() as int) =~= h);
}

} // verus!

verus! {

/// Main configuration object for code generation in Swift.
pub struct CodeGenerator<'a> {
    pub config: &'a CodeGeneratorConfig,
}

/// The type definitions, separated by empty lines.
pub open spec fn sw_containers(w: WriterState, encoding: Encoding, r: Seq<(QualifiedTypeNameV, ContainerFormatV)>) -> WriterState
    decreases r.len(),
{
    if r.len() == 0 {
        w
    } else {
        let w = sw_containers(w, encoding, r.drop_last());
        let w = if r.len() > 1 { put_newline(w) } else { w };
        sw_container(w, r.last().0.name, r.last().1, encoding)
    }
}

/// The Swift source file for a registry: the imports for the namespaces of the external
/// definitions, each type definition, and under an encoding, after an empty line, the
/// helper functions for the composite formats.
pub open spec fn sw_output(encoding: Encoding, namespaces: Seq<Seq<char>>, r: Seq<(QualifiedTypeNameV, ContainerFormatV)>) -> Seq<char> {
    let w = WriterState { text: Seq::empty(), indentation: Seq::empty(), unit: unit_of(IndentConfig::Space(4)), at_line_start: true };
    let w = sw_module(w, encoding != Encoding::Plain, namespaces);
    let w = sw_containers(w, encoding, r);
    let w = if encoding != Encoding::Plain {
        sw_helpers(put_newline(w), helpers(entries_subformats(r)))
    } else {
        w
    };
    w.text
}

impl<'a> CodeGenerator<'a> {
    /// A Swift code generator for the given configuration, which must not ask for C-style
    /// enums: Swift has none.
    pub fn new(config: &'a CodeGeneratorConfig) -> (g: CodeGenerator<'a>)
        requires
            !config.c_style_enums,
        ensures
            g.config == config,
    {
        CodeGenerator { config }
    }

    /// Names each type of a namespace with external definitions by its namespace, which
    /// is how it is already named: the registry comes back unchanged.
    pub fn update_qualified_names(config: &CodeGeneratorConfig, registry: &Registry) -> (r: Registry)
        ensures
            r@ == registry_names(registry@, SwiftTypeNames { config }),
            r@ == registry@,
    {
        proof {
            lemma_registry_names_identity(registry@, SwiftTypeNames { config });
        }
        map_registry_names(registry, &SwiftTypeNames { config })
    }

    /// The Swift source file for `registry`.
    #[verifier::rlimit(40)]
    pub fn output(&self, registry: &Registry) -> (s: String)
        requires
            self.config.encoding != Encoding::Bcs,
        ensures
            s@ == sw_output(self.config.encoding, definition_namespaces(self.config.external_definitions@), registry@),
    {
        let mut config = self.config.duplicate();
        config.update_from(registry);
        let lang = Swift::new(config.encoding);
        let mut w = IndentedWriter::new(IndentConfig::Space(4));
        let module = Module::new(&config);
        module.write(&mut w, lang);
        let updated = Self::update_qualified_names(self.config, registry);
        let ghost start = w@;
        let ghost names = registry@;
        let mut i: usize = 0;
        assert(names.take(0) =~= Seq::<(QualifiedTypeNameV, ContainerFormatV)>::empty());
        while i < updated.len()
            invariant
                i <= updated@.len(),
                updated@ == names,
                lang.encoding == self.config.encoding,
                lang.encoding != Encoding::Bcs,
                w@ == sw_containers(start, self.config.encoding, names.take(i as int)),
            decreases updated@.len() - i,
        {
            if i > 0 {
                w.newline();
            }
            let (name, c) = updated.entry(i);
            proof {
                assert(names.take(i + 1).drop_last() =~= names.take(i as int));
            }
            write_container(&mut w, lang, name, c);
            i = i + 1;
        }
        assert(names.take(names.len() as int) =~= names);
        if config.has_encoding() {
            w.newline();
            output_trait_helpers(&mut w, registry);
        }
        w.into_string()
    }
}

} // verus!

verus! {

impl<'a> crate::generation::CodeGen<'a> for CodeGenerator<'a> {
    open spec fn supports(&self, registry: Seq<(QualifiedTypeNameV, ContainerFormatV)>) -> bool {
        self.config.encoding != Encoding::Bcs && !self.config.c_style_enums
    }

    open spec fn generated(&self, registry: Seq<(QualifiedTypeNameV, ContainerFormatV)>) -> Seq<char> {
        sw_output(self.config.encoding, definition_namespaces(self.config.external_definitions@), registry)
    }

    open spec fn configuration(&self) -> CodeGeneratorConfig {
        *self.config
    }

    fn new(config: &'a CodeGeneratorConfig) -> (g: Self) {
        CodeGenerator { config }
    }

    fn write_output(&mut self, registry: &Registry) -> (s: String) {
        self.output(registry)
    }
}

/// The helpers of a map agree on the layout of an entry: serializing writes each entry's
/// key, with the key format, and then its value, with the value format; deserializing reads
/// the key, with the key format, into `key`, and then the value, with the value format,
/// into `obj[key]`.
pub proof fn lemma_sw_map_helpers(key: FormatV, value: FormatV)
    ensures
        ({
            let m = FormatV::MapOf { key: Box::new(key), value: Box::new(value) };
            &&& sw_serialize_body(m)
                == "\ntry serializer.serialize_len(value: value.count)\nvar offsets : [Int]  = []\nfor (key, value) in value {\n    offsets.append(serializer.get_buffer_offset())\n    "@
                + sw_quote_serialize("key"@, key) + "\n    "@ + sw_quote_serialize("value"@, value)
                + "\n}\nserializer.sort_map_entries(offsets: offsets)\n"@
            &&& sw_deserialize_body(m) == "\nlet length = try deserializer.deserialize_len()\nvar obj : ["@ + sw_type(key, true) + ": "@
                + sw_type(value, true)
                + "] = [:]\nvar previous_slice = Slice(start: 0, end: 0)\nfor i in 0..<length {\n    var slice = Slice(start: 0, end: 0)\n    slice.start = deserializer.get_buffer_offset()\n    let key = "@
                + sw_quote_deserialize(key)
                + "\n    slice.end = deserializer.get_buffer_offset()\n    if i > 0 {\n        try deserializer.check_that_key_slices_are_increasing(key1: previous_slice, key2: slice)\n    }\n    previous_slice = slice\n    obj[key] = "@
                + sw_quote_deserialize(value) + "\n}\nreturn obj\n"@
        }),
{
}

} // verus!
