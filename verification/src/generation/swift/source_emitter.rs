//! A Swift emitter that writes type definitions one by one into a source file, with
//! configured comments and custom code, and serialization helpers for composite formats.
use vstd::prelude::*;

use crate::case::{lower_camel_case, to_lower_camel_case, to_upper_camel_case, upper_camel_case};
use crate::generation::common::{format_is_primitive, is_primitive, mangle_type, mangled, needs_helper, primitive_name, primitive_name_str};
use crate::generation::config::{encoding_name, CodeGeneratorConfig, Encoding, ExternalPackageV};
use crate::generation::indent::{
    decimal, indented, lemma_indented_prefix, lemma_put_line_at_start, lemma_put_line_keeps_indentation, lemma_put_str_concat, lemma_put_str_single, lemma_put_newline_keeps_indentation,
    lemma_put_str_same_indentation, lemma_unindented_after, put_line, put_newline, put_str, same_indentation, unindented,
    usize_to_string, IndentedWriter, WriterState,
};
use crate::generation::swift::emitter::{
    definition_namespaces, import_set, imports_upto, lemma_imports_upto_step, named, sw_imports, sw_module, sw_named,
};
use crate::generation::swift::generator::{
    collect_helpers, entries_subformats, entry_keys, helpers, quote_serialize_value, registry_subformats, serialize_body, sw_quote_serialize,
    sw_serialize_body, CodeGenerator,
};
use crate::reflection::format::{
    duplicate_vec, formats_view, lemma_formats_view, seq_view, ContainerFormat, ContainerFormatV, Format, FormatV, Named, NamedV, Namespace,
    NamespaceV, QualifiedTypeNameV, Registry, VariantFormat, VariantFormatV, VariantMap,
};
use crate::text_wrap::{indent_lines, textwrap_indent};
use crate::util::path_map::{path_lookup, path_view};
use crate::util::sorted_map::{lemma_insert_lookup, map_lookup, SortedMap};
use crate::util::text::{
    after_last, concat, concat3, concat4, lemma_concat_lacks, insert_sorted, join_with, joined, last_segment, lemma_sorted_unique, replace_all, replace_text,
    sorted_texts, strictly_sorted, strings_view,
};

verus! {

/// What the emitter reads of a configuration.
pub struct SourceConfig {
    pub encoding: Encoding,
    pub definitions: Seq<(Seq<char>, Seq<String>)>,
    pub comments: Seq<(Seq<Seq<char>>, Seq<char>)>,
    pub custom_code: Seq<(Seq<Seq<char>>, Seq<char>)>,
    pub packages: Seq<Seq<char>>,
}

/// The part of `c` that the emitter reads.
pub open spec fn source_config(c: CodeGeneratorConfig) -> SourceConfig {
    SourceConfig {
        encoding: c.encoding,
        definitions: c.external_definitions@,
        comments: c.comments@,
        custom_code: c.custom_code@,
        packages: c.external_packages@.map_values(|e: (Seq<char>, ExternalPackageV)| e.0),
    }
}

/// The module of an external namespace: its last `/`-separated segment, in upper camel
/// case.
pub open spec fn swift_module_of(namespace: Seq<char>) -> Seq<char> {
    upper_camel_case(after_last(namespace, '/'))
}

/// The qualified name of `name` under the external definitions `defs`: the last namespace
/// (in order) that lists `name` gives `Module.name`.
pub open spec fn swift_qname_lookup(defs: Seq<(Seq<char>, Seq<String>)>, name: Seq<char>) -> Option<Seq<char>>
    decreases defs.len(),
{
    if defs.len() == 0 {
        None
    } else if strings_view(defs.last().1).contains(name) {
        Some(swift_module_of(defs.last().0) + "."@ + name)
    } else {
        swift_qname_lookup(defs.drop_last(), name)
    }
}

/// The names of `defs[..i]` and of the first `j` names of `defs[i]`.
pub open spec fn swift_qname_lookup_upto(defs: Seq<(Seq<char>, Seq<String>)>, name: Seq<char>, i: int, j: int) -> Option<Seq<char>> {
    if strings_view(defs[i].1).take(j).contains(name) {
        Some(swift_module_of(defs[i].0) + "."@ + name)
    } else {
        swift_qname_lookup(defs.take(i), name)
    }
}

/// How the type `name` is referred to: qualified by its module when it is externally
/// defined.
pub open spec fn swift_typename(cfg: SourceConfig, name: Seq<char>) -> Seq<char> {
    match swift_qname_lookup(cfg.definitions, name) {
        Some(q) => q,
        None => name,
    }
}

/// The Swift type of a format.
pub open spec fn swift_source_type(cfg: SourceConfig, f: FormatV) -> Seq<char>
    decreases f,
{
    match f {
        FormatV::TypeName(q) => swift_typename(cfg, q.name),
        FormatV::Unit => "Unit"@,
        FormatV::Bool => "Bool"@,
        FormatV::I8 => "Int8"@,
        FormatV::I16 => "Int16"@,
        FormatV::I32 => "Int32"@,
        FormatV::I64 => "Int64"@,
        FormatV::I128 => "Int128"@,
        FormatV::U8 => "UInt8"@,
        FormatV::U16 => "UInt16"@,
        FormatV::U32 => "UInt32"@,
        FormatV::U64 => "UInt64"@,
        FormatV::U128 => "UInt128"@,
        FormatV::F32 => "Float"@,
        FormatV::F64 => "Double"@,
        FormatV::Char => "Character"@,
        FormatV::Str => "String"@,
        FormatV::Bytes => "[UInt8]"@,
        FormatV::Option(g) => swift_source_type(cfg, *g) + "?"@,
        FormatV::Sequence(g) => "["@ + swift_source_type(cfg, *g) + "]"@,
        FormatV::SetOf(g) => "["@ + swift_source_type(cfg, *g) + "]"@,
        FormatV::MapOf { key, value } => "["@ + swift_source_type(cfg, *key) + ": "@ + swift_source_type(cfg, *value) + "]"@,
        FormatV::Tuple(s) => "Tuple"@ + decimal(s.len()) + "<"@ + swift_source_types(cfg, s) + ">"@,
        FormatV::TupleArray { content, .. } => "["@ + swift_source_type(cfg, *content) + "]"@,
    }
}

/// The Swift types of `s`, separated by `", "`.
pub open spec fn swift_source_types(cfg: SourceConfig, s: Seq<FormatV>) -> Seq<char>
    decreases s,
{
    if s.len() == 0 {
        Seq::empty()
    } else if s.len() == 1 {
        swift_source_type(cfg, s.last())
    } else {
        swift_source_types(cfg, s.drop_last()) + ", "@ + swift_source_type(cfg, s.last())
    }
}

/// A type's name qualified by its namespace, in upper camel case, if it has one.
pub open spec fn swift_dotted_name(q: QualifiedTypeNameV) -> Seq<char> {
    match q.namespace {
        NamespaceV::Root => q.name,
        NamespaceV::Named(ns) => upper_camel_case(ns) + "."@ + q.name,
    }
}

/// The expression that deserializes a value of format `f`.
pub open spec fn swift_deserialize_value(f: FormatV) -> Seq<char> {
    match f {
        FormatV::TypeName(q) => "try "@ + swift_dotted_name(q) + ".deserialize(deserializer: deserializer)"@,
        _ => if is_primitive(f) {
            "try deserializer.deserialize_"@ + primitive_name(f) + "()"@
        } else {
            "try deserialize_"@ + mangled(f) + "(deserializer: deserializer)"@
        },
    }
}

/// Shared state for the emission of a Swift source file.
pub struct SwiftEmitter<'a> {
    /// Writer.
    pub out: IndentedWriter,
    /// Generator.
    pub generator: &'a CodeGenerator<'a>,
    /// Current namespace: the package's segments, then the enclosing types.
    pub current_namespace: Vec<String>,
    /// The qualified name of each externally defined type, by its name.
    pub external_qualified_names: SortedMap<String, String>,
}

impl<'a> SwiftEmitter<'a> {
    /// The configuration of the generator.
    pub open spec fn cfg(&self) -> SourceConfig {
        source_config(*self.generator.config)
    }

    /// The current namespace.
    pub open spec fn ns(&self) -> Seq<Seq<char>> {
        strings_view(self.current_namespace@)
    }

    /// Whether the qualified names are those that the external definitions give.
    pub open spec fn wf(&self) -> bool {
        forall|name: Seq<char>|
            #[trigger] map_lookup(self.external_qualified_names@, name) == swift_qname_lookup(self.cfg().definitions, name)
    }

    /// An emitter that writes into `out`, in `namespace`. The configuration must not ask
    /// for C-style enums: Swift has none.
    pub fn new(out: IndentedWriter, generator: &'a CodeGenerator<'a>, namespace: Vec<String>) -> (e: SwiftEmitter<'a>)
        requires
            !generator.config.c_style_enums,
        ensures
            e.out@ == out@,
            e.generator == generator,
            e.ns() == strings_view(namespace@),
            e.wf(),
    {
        let defs = &generator.config.external_definitions;
        let ghost d = defs@;
        let mut names: SortedMap<String, String> = SortedMap::new();
        let mut i: usize = 0;
        assert forall|name: Seq<char>| #[trigger] map_lookup(names@, name) == swift_qname_lookup(d.take(0), name) by {
            assert(d.take(0).len() == 0);
        }
        while i < defs.len()
            invariant
                i <= defs@.len(),
                d == defs@,
                forall|name: Seq<char>| #[trigger] map_lookup(names@, name) == swift_qname_lookup(d.take(i as int), name),
            decreases defs@.len() - i,
        {
            let (namespace, list) = defs.entry(i);
            let mut prefix = to_upper_camel_case(last_segment(namespace.as_str(), '/'));
            prefix.append(".");
            let mut j: usize = 0;
            proof {
                assert(d.take(i + 1).drop_last() =~= d.take(i as int));
                assert forall|name: Seq<char>| #[trigger] map_lookup(names@, name) == swift_qname_lookup_upto(d, name, i as int, 0) by {
                    assert(!strings_view(d[i as int].1).take(0).contains(name));
                }
            }
            while j < list.len()
                invariant
                    i < defs@.len(),
                    d == defs@,
                    j <= list@.len(),
                    list@ == d[i as int].1,
                    namespace@ == d[i as int].0,
                    prefix@ == swift_module_of(namespace@) + "."@,
                    forall|name: Seq<char>| #[trigger] map_lookup(names@, name) == swift_qname_lookup_upto(d, name, i as int, j as int),
                decreases list@.len() - j,
            {
                let name = &list[j];
                let _ = names.len();
                let ghost before = names@;
                let mut q = prefix.clone();
                q.append(name.as_str());
                names.insert(name.clone(), q);
                proof {
                    let v = strings_view(d[i as int].1);
                    assert(v.take(j + 1) =~= v.take(j as int).push(name@));
                    assert forall|x: Seq<char>| #[trigger] map_lookup(names@, x) == swift_qname_lookup_upto(d, x, i as int, j + 1) by {
                        lemma_insert_lookup::<String, String>(before, name@, q@, x);
                        if x == name@ {
                            assert(v.take(j + 1)[j as int] == x);
                            assert(q@ =~= swift_module_of(namespace@) + "."@ + x);
                        } else {
                            assert(v.take(j + 1).contains(x) == v.take(j as int).contains(x));
                        }
                    }
                }
                j = j + 1;
            }
            proof {
                let v = strings_view(d[i as int].1);
                assert(v.take(list@.len() as int) =~= v);
                assert forall|name: Seq<char>| #[trigger] map_lookup(names@, name) == swift_qname_lookup(d.take(i + 1), name) by {
                    assert(swift_qname_lookup_upto(d, name, i as int, list@.len() as int) == swift_qname_lookup(d.take(i + 1), name));
                }
            }
            i = i + 1;
        }
        assert(d.take(defs@.len() as int) =~= d);
        SwiftEmitter { out, generator, current_namespace: namespace, external_qualified_names: names }
    }

    fn quote_typename(&self, name: &str) -> (r: String)
        requires
            self.wf(),
        ensures
            r@ == swift_typename(self.cfg(), name@),
    {
        match self.external_qualified_names.get(&String::from_str(name)) {
            Some(q) => q.clone(),
            None => String::from_str(name),
        }
    }

    fn quote_type(&self, f: &Format) -> (r: String)
        requires
            self.wf(),
        ensures
            r@ == swift_source_type(self.cfg(), f@),
        decreases f, 0nat,
    {
        match f {
            Format::TypeName(q) => self.quote_typename(q.name.as_str()),
            Format::Unit => String::from_str("Unit"),
            Format::Bool => String::from_str("Bool"),
            Format::I8 => String::from_str("Int8"),
            Format::I16 => String::from_str("Int16"),
            Format::I32 => String::from_str("Int32"),
            Format::I64 => String::from_str("Int64"),
            Format::I128 => String::from_str("Int128"),
            Format::U8 => String::from_str("UInt8"),
            Format::U16 => String::from_str("UInt16"),
            Format::U32 => String::from_str("UInt32"),
            Format::U64 => String::from_str("UInt64"),
            Format::U128 => String::from_str("UInt128"),
            Format::F32 => String::from_str("Float"),
            Format::F64 => String::from_str("Double"),
            Format::Char => String::from_str("Character"),
            Format::Str => String::from_str("String"),
            Format::Bytes => String::from_str("[UInt8]"),
            Format::Option(g) => concat(self.quote_type(g).as_str(), "?"),
            Format::Sequence(g) | Format::SetOf(g) => concat3("[", self.quote_type(g).as_str(), "]"),
            Format::MapOf { key, value } => {
                let mut r = concat4("[", self.quote_type(key).as_str(), ": ", self.quote_type(value).as_str());
                r.append("]");
                r
            },
            Format::Tuple(v) => {
                proof {
                    lemma_formats_view(v@);
                }
                let mut r = concat4("Tuple", usize_to_string(v.len()).as_str(), "<", self.quote_types(v).as_str());
                r.append(">");
                r
            },
            Format::TupleArray { content, .. } => concat3("[", self.quote_type(content).as_str(), "]"),
        }
    }

    fn quote_types(&self, v: &Vec<Format>) -> (r: String)
        requires
            self.wf(),
        ensures
            r@ == swift_source_types(self.cfg(), formats_view(v@)),
        decreases v@, 1nat,
    {
        let mut out = String::new();
        let mut i: usize = 0;
        proof {
            assert(v@.take(0) =~= Seq::<Format>::empty());
        }
        while i < v.len()
            invariant
                i <= v.len(),
                self.wf(),
                out@ == swift_source_types(self.cfg(), formats_view(v@.take(i as int))),
            decreases v.len() - i,
        {
            proof {
                assert(decreases_to!(v@ => v@[i as int]));
                assert(v@.take(i + 1).drop_last() =~= v@.take(i as int));
            }
            let ghost before = out@;
            if i > 0 {
                out.append(", ");
            }
            let t = self.quote_type(&v[i]);
            out.append(t.as_str());
            proof {
                let s = formats_view(v@.take(i + 1));
                lemma_formats_view(v@.take(i + 1));
                lemma_formats_view(v@.take(i as int));
                assert(s.drop_last() == formats_view(v@.take(i as int)));
                assert(s.last() == v@[i as int]@);
                if i == 0 {
                    assert(out@ =~= t@);
                } else {
                    assert(out@ =~= before + ", "@ + t@);
                }
            }
            i = i + 1;
        }
        assert(v@.take(v.len() as int) =~= v@);
        out
    }
}

/// The expression that deserializes a value of format `f`.
fn quote_deserialize(f: &Format) -> (r: String)
    ensures
        r@ == swift_deserialize_value(f@),
{
    match f {
        Format::TypeName(q) => {
            let name = match &q.namespace {
                Namespace::Root => q.name.clone(),
                Namespace::Named(ns) => concat3(to_upper_camel_case(ns.as_str()).as_str(), ".", q.name.as_str()),
            };
            concat3("try ", name.as_str(), ".deserialize(deserializer: deserializer)")
        },
        _ => if format_is_primitive(f) {
            concat3("try deserializer.deserialize_", primitive_name_str(f), "()")
        } else {
            concat3("try deserialize_", mangle_type(f).as_str(), "(deserializer: deserializer)")
        },
    }
}

} // verus!

verus! {

/// Whether `a` stands where `b` stood: same generator, namespace and qualified names.
pub open spec fn kept<'a>(a: SwiftEmitter<'a>, b: SwiftEmitter<'a>) -> bool {
    &&& a.generator == b.generator
    &&& a.ns() == b.ns()
    &&& a.external_qualified_names@ == b.external_qualified_names@
}

/// The configured comment of the item `ns.name`, if there is one: each line after `// `,
/// an empty line as `//`, with no newline added.
pub open spec fn src_comment(w: WriterState, cfg: SourceConfig, ns: Seq<Seq<char>>, name: Seq<char>) -> WriterState {
    match path_lookup(cfg.comments, ns.push(name)) {
        Some(doc) => put_str(w, replace_all(textwrap_indent(doc, "// "@), "\n\n"@, "\n//\n"@)),
        None => w,
    }
}

/// The configured custom code of the item `ns.name`, if there is some, after an empty
/// line.
pub open spec fn src_custom_code(w: WriterState, cfg: SourceConfig, ns: Seq<Seq<char>>, name: Seq<char>) -> WriterState {
    match path_lookup(cfg.custom_code, ns.push(name)) {
        Some(code) => put_line(w, "\n"@ + code),
        None => w,
    }
}

/// Writes the lines `ls`, one after the other.
pub open spec fn src_put_lines(w: WriterState, ls: Seq<Seq<char>>) -> WriterState
    decreases ls.len(),
{
    if ls.len() == 0 {
        w
    } else {
        put_line(src_put_lines(w, ls.drop_last()), ls.last())
    }
}

/// The text that a definition writes for each of its fields, or a part of a line.
#[derive(Clone, Copy)]
pub enum SourceLine {
    /// A parameter of the initializer: `name: Type`.
    Param,
    /// An assignment in the initializer.
    Assign,
    /// Serializing a struct's field.
    Serialize,
    /// Deserializing a field into a local of its name.
    Deserialize,
    /// An argument of the initializer: `name: name`.
    InitArg,
    /// Binding a variant's field in a `case` pattern.
    Binding,
    /// Serializing a variant's bound field.
    VariantSerialize,
    /// The field's name alone.
    Name,
}

/// What a definition writes for the field `f`.
pub open spec fn src_line(cfg: SourceConfig, kind: SourceLine, f: NamedV<FormatV>) -> Seq<char> {
    let n = f.name;
    match kind {
        SourceLine::Param => n + ": "@ + swift_source_type(cfg, f.value),
        SourceLine::Assign => "self."@ + n + " = "@ + n,
        SourceLine::Serialize => sw_quote_serialize("self."@ + n, f.value),
        SourceLine::Deserialize => "let "@ + n + " = "@ + swift_deserialize_value(f.value),
        SourceLine::InitArg => n + ": "@ + n,
        SourceLine::Binding => "let "@ + n,
        SourceLine::VariantSerialize => sw_quote_serialize(n, f.value),
        SourceLine::Name => n,
    }
}

/// What a definition writes for each of `fields`, in order.
pub open spec fn src_lines(cfg: SourceConfig, kind: SourceLine, fields: Seq<NamedV<FormatV>>) -> Seq<Seq<char>> {
    fields.map_values(|f: NamedV<FormatV>| src_line(cfg, kind, f))
}

/// The stored properties of a struct, each after its configured comment.
pub open spec fn src_field_decls(w: WriterState, cfg: SourceConfig, ns: Seq<Seq<char>>, fields: Seq<NamedV<FormatV>>) -> WriterState
    decreases fields.len(),
{
    if fields.len() == 0 {
        w
    } else {
        let f = fields.last();
        put_line(
            src_comment(src_field_decls(w, cfg, ns, fields.drop_last()), cfg, ns, f.name),
            "@Indirect public var "@ + f.name + ": "@ + swift_source_type(cfg, f.value),
        )
    }
}

/// The method that serializes a value with `encoding` into bytes.
pub open spec fn src_serialize_for_encoding(w: WriterState, encoding: Encoding) -> WriterState {
    let e = encoding_name(encoding);
    put_line(
        w,
        "\npublic func "@ + e + "Serialize() throws -> [UInt8] {\n    let serializer = "@ + upper_camel_case(e)
            + "Serializer.init();\n    try self.serialize(serializer: serializer)\n    return serializer.get_bytes()\n}"@,
    )
}

/// The method that deserializes a value of type `name` with `encoding` from bytes.
pub open spec fn src_deserialize_for_encoding(w: WriterState, encoding: Encoding, name: Seq<char>) -> WriterState {
    let e = encoding_name(encoding);
    put_line(
        w,
        "\npublic static func "@ + e + "Deserialize(input: [UInt8]) throws -> "@ + name + " {\n    let deserializer = "@
            + upper_camel_case(e)
            + "Deserializer.init(input: input);\n    let obj = try deserialize(deserializer: deserializer)\n    if deserializer.get_buffer_offset() < input.count {\n        throw DeserializationError.invalidInput(issue: \"Some input bytes were not read\")\n    }\n    return obj\n}"@,
    )
}

/// The serialization methods of a struct named `name`.
pub open spec fn src_struct_serialization(w: WriterState, cfg: SourceConfig, name: Seq<char>, fields: Seq<NamedV<FormatV>>) -> WriterState {
    let w = indented(put_line(w, "\npublic func serialize<S: Serializer>(serializer: S) throws {"@));
    let w = put_line(w, "try serializer.increase_container_depth()"@);
    let w = src_put_lines(w, src_lines(cfg, SourceLine::Serialize, fields));
    let w = put_line(unindented(put_line(w, "try serializer.decrease_container_depth()"@)), "}"@);
    let w = src_serialize_for_encoding(w, cfg.encoding);
    let w = indented(put_line(w, "\npublic static func deserialize<D: Deserializer>(deserializer: D) throws -> "@ + name + " {"@));
    let w = put_line(w, "try deserializer.increase_container_depth()"@);
    let w = src_put_lines(w, src_lines(cfg, SourceLine::Deserialize, fields));
    let w = put_line(w, "try deserializer.decrease_container_depth()"@);
    let w = put_line(w, "return "@ + name + ".init("@ + joined(src_lines(cfg, SourceLine::InitArg, fields), ", "@) + ")"@);
    src_deserialize_for_encoding(put_line(unindented(w), "}"@), cfg.encoding, name)
}

/// A struct named `name` with `fields`, written in the namespace `ns`: its comment, the
/// declaration, the stored properties, the initializer, the serialization methods under
/// an encoding, and its custom code.
pub open spec fn src_struct(w: WriterState, cfg: SourceConfig, ns: Seq<Seq<char>>, name: Seq<char>, fields: Seq<NamedV<FormatV>>) -> WriterState {
    let inner = ns.push(name);
    let w = src_comment(put_newline(w), cfg, ns, name);
    let w = indented(put_line(w, "public struct "@ + name + ": Hashable {"@));
    let w = src_field_decls(w, cfg, inner, fields);
    let w = put_line(w, "\npublic init("@ + joined(src_lines(cfg, SourceLine::Param, fields), ", "@) + ") {"@);
    let w = put_line(unindented(src_put_lines(indented(w), src_lines(cfg, SourceLine::Assign, fields))), "}"@);
    let w = if cfg.encoding != Encoding::Plain { src_struct_serialization(w, cfg, name, fields) } else { w };
    put_line(unindented(src_custom_code(w, cfg, inner, name)), "}"@)
}

/// What follows `case name` for a variant: its payload types in brackets, if it has any.
pub open spec fn src_payload(cfg: SourceConfig, v: VariantFormatV) -> Seq<char> {
    match v {
        VariantFormatV::Unit => Seq::empty(),
        VariantFormatV::NewType(f) => "("@ + swift_source_type(cfg, f) + ")"@,
        VariantFormatV::Tuple(s) => if s.len() == 0 {
            Seq::empty()
        } else {
            "("@ + swift_source_types(cfg, s) + ")"@
        },
        VariantFormatV::Struct(fs) => if fs.len() == 0 {
            Seq::empty()
        } else {
            "("@ + joined(src_lines(cfg, SourceLine::Param, fs), ", "@) + ")"@
        },
    }
}

/// A variant's `case` line, after its comment.
pub open spec fn src_variant(w: WriterState, cfg: SourceConfig, ns: Seq<Seq<char>>, v: NamedV<VariantFormatV>) -> WriterState {
    put_line(src_comment(w, cfg, ns, v.name), "case "@ + lower_camel_case(v.name) + src_payload(cfg, v.value))
}

/// The `case` lines of the variants, in order.
pub open spec fn src_variants(w: WriterState, cfg: SourceConfig, ns: Seq<Seq<char>>, vs: Seq<(u32, NamedV<VariantFormatV>)>) -> WriterState
    decreases vs.len(),
{
    if vs.len() == 0 {
        w
    } else {
        src_variant(src_variants(w, cfg, ns, vs.drop_last()), cfg, ns, vs.last().1)
    }
}

/// The fields of a variant: `x` for a newtype, `x0`, `x1`, ... for a tuple.
pub open spec fn src_variant_fields(v: VariantFormatV) -> Seq<NamedV<FormatV>> {
    match v {
        VariantFormatV::Unit => Seq::empty(),
        VariantFormatV::NewType(f) => seq![NamedV { name: "x"@, doc: Seq::empty(), value: f }],
        VariantFormatV::Tuple(s) => sw_named(s, "x"@),
        VariantFormatV::Struct(fs) => fs,
    }
}

/// The serialization of the variant `v` with index `index`, in the `switch` of
/// `serialize`.
pub open spec fn src_variant_serialize(w: WriterState, cfg: SourceConfig, index: u32, v: NamedV<VariantFormatV>) -> WriterState {
    let fields = src_variant_fields(v.value);
    let n = lower_camel_case(v.name);
    let head = if fields.len() == 0 {
        "case ."@ + n + ":"@
    } else {
        "case ."@ + n + "("@ + joined(src_lines(cfg, SourceLine::Binding, fields), ", "@) + "):"@
    };
    let w = indented(put_line(w, head));
    let w = put_line(w, "try serializer.serialize_variant_index(value: "@ + decimal(index as nat) + ")"@);
    unindented(src_put_lines(w, src_lines(cfg, SourceLine::VariantSerialize, fields)))
}

/// The deserialization of the variant `v` with index `index`, in the `switch` of
/// `deserialize`.
pub open spec fn src_variant_deserialize(w: WriterState, cfg: SourceConfig, index: u32, v: NamedV<VariantFormatV>) -> WriterState {
    let fields = src_variant_fields(v.value);
    let n = lower_camel_case(v.name);
    let w = indented(put_line(w, "case "@ + decimal(index as nat) + ":"@));
    if fields.len() == 0 {
        unindented(put_line(put_line(w, "try deserializer.decrease_container_depth()"@), "return ."@ + n))
    } else {
        let w = src_put_lines(w, src_lines(cfg, SourceLine::Deserialize, fields));
        let w = put_line(w, "try deserializer.decrease_container_depth()"@);
        let kind = if v.value is Struct { SourceLine::InitArg } else { SourceLine::Name };
        unindented(put_line(w, "return ."@ + n + "("@ + joined(src_lines(cfg, kind, fields), ", "@) + ")"@))
    }
}

/// The serialization cases of the variants, in order.
pub open spec fn src_variants_serialize(w: WriterState, cfg: SourceConfig, vs: Seq<(u32, NamedV<VariantFormatV>)>) -> WriterState
    decreases vs.len(),
{
    if vs.len() == 0 {
        w
    } else {
        src_variant_serialize(src_variants_serialize(w, cfg, vs.drop_last()), cfg, vs.last().0, vs.last().1)
    }
}

/// The deserialization cases of the variants, in order.
pub open spec fn src_variants_deserialize(w: WriterState, cfg: SourceConfig, vs: Seq<(u32, NamedV<VariantFormatV>)>) -> WriterState
    decreases vs.len(),
{
    if vs.len() == 0 {
        w
    } else {
        src_variant_deserialize(src_variants_deserialize(w, cfg, vs.drop_last()), cfg, vs.last().0, vs.last().1)
    }
}

/// The serialization methods of an enum named `name`.
pub open spec fn src_enum_serialization(w: WriterState, cfg: SourceConfig, name: Seq<char>, vs: Seq<(u32, NamedV<VariantFormatV>)>) -> WriterState {
    let w = indented(put_line(w, "\npublic func serialize<S: Serializer>(serializer: S) throws {"@));
    let w = put_line(put_line(w, "try serializer.increase_container_depth()"@), "switch self {"@);
    let w = src_variants_serialize(w, cfg, vs);
    let w = put_line(put_line(w, "}"@), "try serializer.decrease_container_depth()"@);
    let w = src_serialize_for_encoding(put_line(unindented(w), "}"@), cfg.encoding);
    let w = indented(put_str(w, "\npublic static func deserialize<D: Deserializer>(deserializer: D) throws -> "@ + name + " {"@));
    let w = put_line(
        w,
        "\nlet index = try deserializer.deserialize_variant_index()\ntry deserializer.increase_container_depth()\nswitch index {"@,
    );
    let w = src_variants_deserialize(w, cfg, vs);
    let w = put_line(w, "default: throw DeserializationError.invalidInput(issue: \"Unknown variant index for "@ + name + ": \\(index)\")"@);
    let w = put_line(unindented(put_line(w, "}"@)), "}"@);
    src_deserialize_for_encoding(w, cfg.encoding, name)
}

/// An enum named `name` with the variants `vs`, written in the namespace `ns`: its
/// comment, the declaration, a `case` per variant, the serialization methods under an
/// encoding, and its custom code.
pub open spec fn src_enum(w: WriterState, cfg: SourceConfig, ns: Seq<Seq<char>>, name: Seq<char>, vs: Seq<(u32, NamedV<VariantFormatV>)>) -> WriterState {
    let w = src_comment(put_newline(w), cfg, ns, name);
    let w = indented(put_line(w, "indirect public enum "@ + name + ": Hashable {"@));
    let w = src_variants(w, cfg, ns.push(name), vs);
    let w = if cfg.encoding != Encoding::Plain { src_enum_serialization(w, cfg, name, vs) } else { w };
    put_line(unindented(src_custom_code(w, cfg, ns, name)), "}"@)
}

/// The fields of a struct as written: names in lower camel case, without documentation.
pub open spec fn src_struct_fields(fs: Seq<NamedV<FormatV>>) -> Seq<NamedV<FormatV>> {
    fs.map_values(|f: NamedV<FormatV>| NamedV { name: lower_camel_case(f.name), doc: Seq::empty(), value: f.value })
}

/// The definition of the type `name`: a struct for every struct shape (a newtype holding
/// its value in `value`, a tuple struct in `field0`, `field1`, ...), an enum for an enum.
pub open spec fn src_container(w: WriterState, cfg: SourceConfig, ns: Seq<Seq<char>>, name: Seq<char>, c: ContainerFormatV) -> WriterState {
    match c {
        ContainerFormatV::UnitStruct(_) => src_struct(w, cfg, ns, name, Seq::empty()),
        ContainerFormatV::NewTypeStruct(f, _) => src_struct(
            w,
            cfg,
            ns,
            name,
            seq![NamedV { name: "value"@, doc: Seq::empty(), value: f }],
        ),
        ContainerFormatV::TupleStruct(s, _) => src_struct(w, cfg, ns, name, sw_named(s, "field"@)),
        ContainerFormatV::Struct(fs, _) => src_struct(w, cfg, ns, name, src_struct_fields(fs)),
        ContainerFormatV::Enum(vs, _) => src_enum(w, cfg, ns, name, vs),
    }
}

/// The body of the deserialization helper for a composite format.
pub open spec fn src_deserialize_body(cfg: SourceConfig, f: FormatV) -> Seq<char> {
    match f {
        FormatV::Option(g) => "\nlet tag = try deserializer.deserialize_option_tag()\nif tag {\n    return "@
            + swift_deserialize_value(*g) + "\n} else {\n    return nil\n}\n"@,
        FormatV::Sequence(g) => src_list_body(cfg, *g),
        FormatV::SetOf(g) => src_list_body(cfg, *g),
        FormatV::MapOf { key, value } => "\nlet length = try deserializer.deserialize_len()\nvar obj : ["@ + swift_source_type(cfg, *key)
            + ": "@ + swift_source_type(cfg, *value)
            + "] = [:]\nvar previous_slice = Slice(start: 0, end: 0)\nfor i in 0..<length {\n    var slice = Slice(start: 0, end: 0)\n    slice.start = deserializer.get_buffer_offset()\n    let key = "@
            + swift_deserialize_value(*key)
            + "\n    slice.end = deserializer.get_buffer_offset()\n    if i > 0 {\n        try deserializer.check_that_key_slices_are_increasing(key1: previous_slice, key2: slice)\n    }\n    previous_slice = slice\n    obj[key] = "@
            + swift_deserialize_value(*value) + "\n}\nreturn obj\n"@,
        FormatV::Tuple(s) => "\nreturn Tuple"@ + decimal(s.len()) + ".init("@
            + joined(s.map_values(|g: FormatV| swift_deserialize_value(g)), ", "@) + ")\n"@,
        FormatV::TupleArray { content, size } => "\nvar obj : ["@ + swift_source_type(cfg, *content) + "] = []\nfor _ in 0..<"@
            + decimal(size as nat) + " {\n    obj.append("@ + swift_deserialize_value(*content) + ")\n}\nreturn obj\n"@,
        _ => Seq::empty(),
    }
}

/// The body of the helper that deserializes a list of `g`.
pub open spec fn src_list_body(cfg: SourceConfig, g: FormatV) -> Seq<char> {
    "\nlet length = try deserializer.deserialize_len()\nvar obj : ["@ + swift_source_type(cfg, g)
        + "] = []\nfor _ in 0..<length {\n    obj.append("@ + swift_deserialize_value(g) + ")\n}\nreturn obj\n"@
}

/// The serialization helper function `serialize_<name>` for a composite format.
pub open spec fn src_serialization_helper(w: WriterState, cfg: SourceConfig, name: Seq<char>, f: FormatV) -> WriterState {
    let w = put_str(w, "func serialize_"@ + name + "<S: Serializer>(value: "@ + swift_source_type(cfg, f) + ", serializer: S) throws {"@);
    put_str(unindented(put_str(indented(w), sw_serialize_body(f))), "}\n\n"@)
}

/// The deserialization helper function `deserialize_<name>` for a composite format.
pub open spec fn src_deserialization_helper(w: WriterState, cfg: SourceConfig, name: Seq<char>, f: FormatV) -> WriterState {
    let w = put_str(w, "func deserialize_"@ + name + "<D: Deserializer>(deserializer: D) throws -> "@ + swift_source_type(cfg, f) + " {"@);
    put_str(unindented(put_str(indented(w), src_deserialize_body(cfg, f))), "}\n\n"@)
}

/// The helper functions: for each helper, serialization then deserialization.
pub open spec fn src_helpers(w: WriterState, cfg: SourceConfig, d: Seq<(Seq<char>, FormatV)>) -> WriterState
    decreases d.len(),
{
    if d.len() == 0 {
        w
    } else {
        let (k, f) = d.last();
        src_deserialization_helper(src_serialization_helper(src_helpers(w, cfg, d.drop_last()), cfg, k, f), cfg, k, f)
    }
}

} // verus!

verus! {

impl<'a> SwiftEmitter<'a> {
    fn output_comment(&mut self, name: &str)
        ensures
            final(self).out@ == src_comment(old(self).out@, old(self).cfg(), old(self).ns(), name@),
            kept(*final(self), *old(self)),
    {
        let mut path: Vec<String> = Vec::new();
        let mut i: usize = 0;
        while i < self.current_namespace.len()
            invariant
                i <= self.current_namespace.len(),
                path@.len() == i,
                forall|k: int| 0 <= k < i ==> (#[trigger] path@[k])@ == self.current_namespace@[k]@,
            decreases self.current_namespace.len() - i,
        {
            path.push(self.current_namespace[i].clone());
            i = i + 1;
        }
        path.push(String::from_str(name));
        assert(path_view(path@) =~= self.ns().push(name@));
        match self.generator.config.comments.get(&path) {
            Some(doc) => {
                proof {
                    reveal_strlit("\n\n");
                }
                let text = replace_text(indent_lines(doc.as_str(), "// ").as_str(), "\n\n", "\n//\n");
                self.out.write_string(&text);
            },
            None => {},
        }
    }

    fn output_custom_code(&mut self, name: &str)
        ensures
            final(self).out@ == src_custom_code(old(self).out@, old(self).cfg(), old(self).ns(), name@),
            kept(*final(self), *old(self)),
    {
        let mut path: Vec<String> = Vec::new();
        let mut i: usize = 0;
        while i < self.current_namespace.len()
            invariant
                i <= self.current_namespace.len(),
                path@.len() == i,
                forall|k: int| 0 <= k < i ==> (#[trigger] path@[k])@ == self.current_namespace@[k]@,
            decreases self.current_namespace.len() - i,
        {
            path.push(self.current_namespace[i].clone());
            i = i + 1;
        }
        path.push(String::from_str(name));
        assert(path_view(path@) =~= self.ns().push(name@));
        match self.generator.config.custom_code.get(&path) {
            Some(code) => self.out.write_line(concat("\n", code.as_str()).as_str()),
            None => {},
        }
    }

    fn enter_class(&mut self, name: &str)
        ensures
            final(self).out@ == indented(old(self).out@),
            final(self).generator == old(self).generator,
            final(self).ns() == old(self).ns().push(name@),
            final(self).external_qualified_names@ == old(self).external_qualified_names@,
    {
        self.out.indent();
        self.current_namespace.push(String::from_str(name));
        assert(self.ns() =~= old(self).ns().push(name@));
    }

    fn leave_class(&mut self)
        requires
            old(self).ns().len() > 0,
        ensures
            final(self).out@ == unindented(old(self).out@),
            final(self).generator == old(self).generator,
            final(self).ns() == old(self).ns().drop_last(),
            final(self).external_qualified_names@ == old(self).external_qualified_names@,
    {
        self.out.unindent();
        self.current_namespace.pop();
        assert(self.ns() =~= old(self).ns().drop_last());
    }

    fn line(&self, kind: SourceLine, f: &Named<Format>) -> (r: String)
        requires
            self.wf(),
        ensures
            r@ == src_line(self.cfg(), kind, f@),
    {
        let n = f.name.as_str();
        match kind {
            SourceLine::Param => concat3(n, ": ", self.quote_type(&f.value).as_str()),
            SourceLine::Assign => concat4("self.", n, " = ", n),
            SourceLine::Serialize => quote_serialize_value(concat("self.", n).as_str(), &f.value),
            SourceLine::Deserialize => concat4("let ", n, " = ", quote_deserialize(&f.value).as_str()),
            SourceLine::InitArg => concat3(n, ": ", n),
            SourceLine::Binding => concat("let ", n),
            SourceLine::VariantSerialize => quote_serialize_value(n, &f.value),
            SourceLine::Name => String::from_str(n),
        }
    }

    fn lines(&self, kind: SourceLine, fields: &Vec<Named<Format>>) -> (r: Vec<String>)
        requires
            self.wf(),
        ensures
            strings_view(r@) == src_lines(self.cfg(), kind, seq_view(fields@)),
    {
        let mut lines: Vec<String> = Vec::new();
        let mut i: usize = 0;
        while i < fields.len()
            invariant
                i <= fields.len(),
                self.wf(),
                lines@.len() == i,
                forall|j: int| 0 <= j < i ==> (#[trigger] lines@[j])@ == src_line(self.cfg(), kind, fields@[j]@),
            decreases fields.len() - i,
        {
            lines.push(self.line(kind, &fields[i]));
            i = i + 1;
        }
        assert(strings_view(lines@) =~= src_lines(self.cfg(), kind, seq_view(fields@)));
        lines
    }

    fn write_lines(&mut self, lines: &Vec<String>)
        ensures
            final(self).out@ == src_put_lines(old(self).out@, strings_view(lines@)),
            kept(*final(self), *old(self)),
    {
        let ghost start = self.out@;
        let mut i: usize = 0;
        while i < lines.len()
            invariant
                i <= lines.len(),
                kept(*self, *old(self)),
                self.out@ == src_put_lines(start, strings_view(lines@).take(i as int)),
            decreases lines.len() - i,
        {
            self.out.write_line(lines[i].as_str());
            assert(strings_view(lines@).take(i + 1).drop_last() =~= strings_view(lines@).take(i as int));
            i = i + 1;
        }
        assert(strings_view(lines@).take(lines.len() as int) =~= strings_view(lines@));
    }

    fn output_field_decls(&mut self, fields: &Vec<Named<Format>>)
        requires
            old(self).wf(),
        ensures
            final(self).out@ == src_field_decls(old(self).out@, old(self).cfg(), old(self).ns(), seq_view(fields@)),
            kept(*final(self), *old(self)),
    {
        let ghost start = self.out@;
        let ghost fs = seq_view(fields@);
        let mut i: usize = 0;
        assert(fs.take(0) =~= Seq::<NamedV<FormatV>>::empty());
        while i < fields.len()
            invariant
                i <= fields.len() == fs.len(),
                fs == seq_view(fields@),
                kept(*self, *old(self)),
                old(self).wf(),
                self.out@ == src_field_decls(start, old(self).cfg(), old(self).ns(), fs.take(i as int)),
            decreases fields.len() - i,
        {
            let f = &fields[i];
            self.output_comment(f.name.as_str());
            let mut decl = concat4("@Indirect public var ", f.name.as_str(), ": ", self.quote_type(&f.value).as_str());
            self.out.write_line(decl.as_str());
            assert(fs.take(i + 1).drop_last() =~= fs.take(i as int));
            assert(fs.take(i + 1).last() == f@);
            i = i + 1;
        }
        assert(fs.take(fields.len() as int) =~= fs);
    }

    fn output_struct_serialize_for_encoding(&mut self)
        ensures
            final(self).out@ == src_serialize_for_encoding(old(self).out@, old(self).cfg().encoding),
            kept(*final(self), *old(self)),
    {
        let e = self.generator.config.encoding.name();
        let mut text = concat3("\npublic func ", e, "Serialize() throws -> [UInt8] {\n    let serializer = ");
        text.append(to_upper_camel_case(e).as_str());
        text.append("Serializer.init();\n    try self.serialize(serializer: serializer)\n    return serializer.get_bytes()\n}");
        self.out.write_line(text.as_str());
    }

    fn output_struct_deserialize_for_encoding(&mut self, name: &str)
        ensures
            final(self).out@ == src_deserialize_for_encoding(old(self).out@, old(self).cfg().encoding, name@),
            kept(*final(self), *old(self)),
    {
        let e = self.generator.config.encoding.name();
        let mut text = concat4("\npublic static func ", e, "Deserialize(input: [UInt8]) throws -> ", name);
        text.append(" {\n    let deserializer = ");
        text.append(to_upper_camel_case(e).as_str());
        text.append(
            "Deserializer.init(input: input);\n    let obj = try deserialize(deserializer: deserializer)\n    if deserializer.get_buffer_offset() < input.count {\n        throw DeserializationError.invalidInput(issue: \"Some input bytes were not read\")\n    }\n    return obj\n}",
        );
        self.out.write_line(text.as_str());
    }
}

} // verus!

verus! {

impl<'a> SwiftEmitter<'a> {
    fn output_struct_serialization(&mut self, name: &str, fields: &Vec<Named<Format>>)
        requires
            old(self).wf(),
        ensures
            final(self).out@ == src_struct_serialization(old(self).out@, old(self).cfg(), name@, seq_view(fields@)),
            kept(*final(self), *old(self)),
    {
        let ghost cfg = self.cfg();
        let ghost fs = seq_view(fields@);
        self.out.write_line("\npublic func serialize<S: Serializer>(serializer: S) throws {");
        self.out.indent();
        self.out.write_line("try serializer.increase_container_depth()");
        let ser = self.lines(SourceLine::Serialize, fields);
        self.write_lines(&ser);
        self.out.write_line("try serializer.decrease_container_depth()");
        self.out.unindent();
        self.out.write_line("}");
        self.output_struct_serialize_for_encoding();
        self.out.write_line(concat3("\npublic static func deserialize<D: Deserializer>(deserializer: D) throws -> ", name, " {").as_str());
        self.out.indent();
        self.out.write_line("try deserializer.increase_container_depth()");
        let de = self.lines(SourceLine::Deserialize, fields);
        self.write_lines(&de);
        self.out.write_line("try deserializer.decrease_container_depth()");
        let args = self.lines(SourceLine::InitArg, fields);
        let mut ret = concat4("return ", name, ".init(", join_with(&args, ", ").as_str());
        ret.append(")");
        self.out.write_line(ret.as_str());
        self.out.unindent();
        self.out.write_line("}");
        self.output_struct_deserialize_for_encoding(name);
    }

    fn output_struct_container(&mut self, name: &str, fields: &Vec<Named<Format>>)
        requires
            old(self).wf(),
        ensures
            final(self).out@ == src_struct(old(self).out@, old(self).cfg(), old(self).ns(), name@, seq_view(fields@)),
            kept(*final(self), *old(self)),
    {
        let ghost cfg = self.cfg();
        let ghost ns = self.ns();
        self.out.newline();
        self.output_comment(name);
        self.out.write_line(concat3("public struct ", name, ": Hashable {").as_str());
        self.enter_class(name);
        self.output_field_decls(fields);
        let params = self.lines(SourceLine::Param, fields);
        let mut init = concat3("\npublic init(", join_with(&params, ", ").as_str(), ") {");
        self.out.write_line(init.as_str());
        self.out.indent();
        let assigns = self.lines(SourceLine::Assign, fields);
        self.write_lines(&assigns);
        self.out.unindent();
        self.out.write_line("}");
        if self.generator.config.has_encoding() {
            self.output_struct_serialization(name, fields);
        }
        self.output_custom_code(name);
        self.leave_class();
        assert(self.ns() =~= ns);
        self.out.write_line("}");
    }
}

} // verus!

verus! {

/// The fields of a variant: `x` for a newtype, `x0`, `x1`, ... for a tuple.
fn variant_fields(v: &VariantFormat) -> (r: Vec<Named<Format>>)
    ensures
        seq_view(r@) == src_variant_fields(v@),
{
    match v {
        VariantFormat::Unit => {
            let r: Vec<Named<Format>> = Vec::new();
            assert(seq_view(r@) =~= src_variant_fields(v@));
            r
        },
        VariantFormat::NewType(f) => {
            let mut r: Vec<Named<Format>> = Vec::new();
            proof {
                reveal_strlit("x");
            }
            r.push(Named::new((**f).clone(), String::from_str("x")));
            assert(seq_view(r@) =~= src_variant_fields(v@));
            r
        },
        VariantFormat::Tuple(s) => {
            proof {
                lemma_formats_view(s@);
            }
            named(s, "x")
        },
        VariantFormat::Struct(fs) => duplicate_vec(fs),
    }
}

impl<'a> SwiftEmitter<'a> {
    fn output_variant(&mut self, name: &str, variant: &VariantFormat)
        requires
            old(self).wf(),
        ensures
            final(self).out@ == src_variant(
                old(self).out@,
                old(self).cfg(),
                old(self).ns(),
                NamedV { name: name@, doc: Seq::empty(), value: variant@ },
            ),
            kept(*final(self), *old(self)),
    {
        self.output_comment(name);
        let n = to_lower_camel_case(name);
        let payload = match variant {
            VariantFormat::Unit => String::new(),
            VariantFormat::NewType(f) => concat3("(", self.quote_type(f).as_str(), ")"),
            VariantFormat::Tuple(s) => if s.len() == 0 {
                String::new()
            } else {
                proof {
                    lemma_formats_view(s@);
                }
                concat3("(", self.quote_types(s).as_str(), ")")
            },
            VariantFormat::Struct(fs) => if fs.len() == 0 {
                String::new()
            } else {
                let params = self.lines(SourceLine::Param, fs);
                concat3("(", join_with(&params, ", ").as_str(), ")")
            },
        };
        self.out.write_line(concat3("case ", n.as_str(), payload.as_str()).as_str());
    }

    fn output_variants(&mut self, variants: &VariantMap)
        requires
            old(self).wf(),
        ensures
            final(self).out@ == src_variants(old(self).out@, old(self).cfg(), old(self).ns(), variants@),
            kept(*final(self), *old(self)),
    {
        let ghost start = self.out@;
        let ghost vs = variants@;
        let mut i: usize = 0;
        assert(vs.take(0) =~= Seq::<(u32, NamedV<VariantFormatV>)>::empty());
        while i < variants.len()
            invariant
                i <= variants@.len(),
                vs == variants@,
                kept(*self, *old(self)),
                old(self).wf(),
                self.out@ == src_variants(start, old(self).cfg(), old(self).ns(), vs.take(i as int)),
            decreases variants@.len() - i,
        {
            let (_index, v) = variants.entry(i);
            self.output_variant(v.name.as_str(), &v.value);
            proof {
                assert(vs.take(i + 1).drop_last() =~= vs.take(i as int));
                assert(vs.take(i + 1).last().1 == v@);
            }
            i = i + 1;
        }
        assert(vs.take(variants@.len() as int) =~= vs);
    }

    fn output_variant_serialize(&mut self, index: u32, v: &Named<VariantFormat>)
        requires
            old(self).wf(),
        ensures
            final(self).out@ == src_variant_serialize(old(self).out@, old(self).cfg(), index, v@),
            kept(*final(self), *old(self)),
    {
        let fields = variant_fields(&v.value);
        let n = to_lower_camel_case(v.name.as_str());
        let head = if fields.len() == 0 {
            concat3("case .", n.as_str(), ":")
        } else {
            let bindings = self.lines(SourceLine::Binding, &fields);
            let mut h = concat4("case .", n.as_str(), "(", join_with(&bindings, ", ").as_str());
            h.append("):");
            h
        };
        self.out.write_line(head.as_str());
        self.out.indent();
        let mut idx = concat3("try serializer.serialize_variant_index(value: ", usize_to_string(index as usize).as_str(), ")");
        self.out.write_line(idx.as_str());
        let ser = self.lines(SourceLine::VariantSerialize, &fields);
        self.write_lines(&ser);
        self.out.unindent();
    }

    fn output_variant_deserialize(&mut self, index: u32, v: &Named<VariantFormat>)
        requires
            old(self).wf(),
        ensures
            final(self).out@ == src_variant_deserialize(old(self).out@, old(self).cfg(), index, v@),
            kept(*final(self), *old(self)),
    {
        let fields = variant_fields(&v.value);
        let n = to_lower_camel_case(v.name.as_str());
        self.out.write_line(concat3("case ", usize_to_string(index as usize).as_str(), ":").as_str());
        self.out.indent();
        if fields.len() == 0 {
            self.out.write_line("try deserializer.decrease_container_depth()");
            self.out.write_line(concat("return .", n.as_str()).as_str());
            self.out.unindent();
        } else {
            let de = self.lines(SourceLine::Deserialize, &fields);
            self.write_lines(&de);
            self.out.write_line("try deserializer.decrease_container_depth()");
            let kind = match &v.value {
                VariantFormat::Struct(_) => SourceLine::InitArg,
                _ => SourceLine::Name,
            };
            let args = self.lines(kind, &fields);
            let mut ret = concat4("return .", n.as_str(), "(", join_with(&args, ", ").as_str());
            ret.append(")");
            self.out.write_line(ret.as_str());
            self.out.unindent();
        }
    }
}

} // verus!

verus! {

impl<'a> SwiftEmitter<'a> {
    fn output_enum_serialization(&mut self, name: &str, variants: &VariantMap)
        requires
            old(self).wf(),
        ensures
            final(self).out@ == src_enum_serialization(old(self).out@, old(self).cfg(), name@, variants@),
            kept(*final(self), *old(self)),
    {
        let ghost cfg = self.cfg();
        let ghost vs = variants@;
        self.out.write_line("\npublic func serialize<S: Serializer>(serializer: S) throws {");
        self.out.indent();
        self.out.write_line("try serializer.increase_container_depth()");
        self.out.write_line("switch self {");
        let ghost start = self.out@;
        let mut i: usize = 0;
        assert(vs.take(0) =~= Seq::<(u32, NamedV<VariantFormatV>)>::empty());
        while i < variants.len()
            invariant
                i <= variants@.len(),
                vs == variants@,
                cfg == old(self).cfg(),
                kept(*self, *old(self)),
                old(self).wf(),
                self.out@ == src_variants_serialize(start, cfg, vs.take(i as int)),
            decreases variants@.len() - i,
        {
            let (index, v) = variants.entry(i);
            self.output_variant_serialize(*index, v);
            proof {
                assert(vs.take(i + 1).drop_last() =~= vs.take(i as int));
                assert(vs.take(i + 1).last() == (*index, v@));
            }
            i = i + 1;
        }
        assert(vs.take(variants@.len() as int) =~= vs);
        self.out.write_line("}");
        self.out.write_line("try serializer.decrease_container_depth()");
        self.out.unindent();
        self.out.write_line("}");
        self.output_struct_serialize_for_encoding();
        self.out.write_string(&concat3("\npublic static func deserialize<D: Deserializer>(deserializer: D) throws -> ", name, " {"));
        self.out.indent();
        self.out.write_line(
            "\nlet index = try deserializer.deserialize_variant_index()\ntry deserializer.increase_container_depth()\nswitch index {",
        );
        let ghost start2 = self.out@;
        let mut k: usize = 0;
        while k < variants.len()
            invariant
                k <= variants@.len(),
                vs == variants@,
                cfg == old(self).cfg(),
                kept(*self, *old(self)),
                old(self).wf(),
                self.out@ == src_variants_deserialize(start2, cfg, vs.take(k as int)),
            decreases variants@.len() - k,
        {
            let (index, v) = variants.entry(k);
            self.output_variant_deserialize(*index, v);
            proof {
                assert(vs.take(k + 1).drop_last() =~= vs.take(k as int));
                assert(vs.take(k + 1).last() == (*index, v@));
            }
            k = k + 1;
        }
        let mut default = concat3(
            "default: throw DeserializationError.invalidInput(issue: \"Unknown variant index for ",
            name,
            ": \\(index)\")",
        );
        self.out.write_line(default.as_str());
        self.out.write_line("}");
        self.out.unindent();
        self.out.write_line("}");
        self.output_struct_deserialize_for_encoding(name);
    }

    fn output_enum_container(&mut self, name: &str, variants: &VariantMap)
        requires
            old(self).wf(),
        ensures
            final(self).out@ == src_enum(old(self).out@, old(self).cfg(), old(self).ns(), name@, variants@),
            kept(*final(self), *old(self)),
    {
        let ghost ns = self.ns();
        self.out.newline();
        self.output_comment(name);
        self.out.write_line(concat3("indirect public enum ", name, ": Hashable {").as_str());
        self.current_namespace.push(String::from_str(name));
        assert(self.ns() =~= ns.push(name@));
        self.out.indent();
        self.output_variants(variants);
        if self.generator.config.has_encoding() {
            self.output_enum_serialization(name, variants);
        }
        let ghost inner = self.current_namespace@;
        assert(strings_view(inner) == ns.push(name@));
        assert(inner.len() == strings_view(inner).len());
        self.current_namespace.pop();
        assert(self.current_namespace@ =~= inner.drop_last());
        assert(self.ns() =~= strings_view(inner).drop_last());
        assert(self.ns() =~= ns);
        self.output_custom_code(name);
        self.out.unindent();
        self.out.write_line("}");
    }

    /// Writes the definition of the type `name`.
    pub fn output_container(&mut self, name: &str, format: &ContainerFormat)
        requires
            old(self).wf(),
        ensures
            final(self).out@ == src_container(old(self).out@, old(self).cfg(), old(self).ns(), name@, format@),
            kept(*final(self), *old(self)),
    {
        let fields: Vec<Named<Format>> = match format {
            ContainerFormat::UnitStruct(_) => Vec::new(),
            ContainerFormat::NewTypeStruct(f, _) => {
                let mut r: Vec<Named<Format>> = Vec::new();
                proof {
                    reveal_strlit("value");
                }
                r.push(Named::new((**f).clone(), String::from_str("value")));
                r
            },
            ContainerFormat::TupleStruct(s, _) => {
                proof {
                    lemma_formats_view(s@);
                }
                named(s, "field")
            },
            ContainerFormat::Struct(fs, _) => {
                let mut r: Vec<Named<Format>> = Vec::new();
                let mut i: usize = 0;
                while i < fs.len()
                    invariant
                        i <= fs.len(),
                        r@.len() == i,
                        forall|j: int| 0 <= j < i ==> (#[trigger] r@[j])@ == src_struct_fields(seq_view(fs@))[j],
                    decreases fs.len() - i,
                {
                    r.push(Named::new(fs[i].value.clone(), to_lower_camel_case(fs[i].name.as_str())));
                    i = i + 1;
                }
                r
            },
            ContainerFormat::Enum(variants, _) => {
                self.output_enum_container(name, variants);
                return;
            },
        };
        assert(seq_view(fields@) =~= match format@ {
            ContainerFormatV::UnitStruct(_) => Seq::<NamedV<FormatV>>::empty(),
            ContainerFormatV::NewTypeStruct(f, _) => seq![NamedV { name: "value"@, doc: Seq::empty(), value: f }],
            ContainerFormatV::TupleStruct(s, _) => sw_named(s, "field"@),
            ContainerFormatV::Struct(fs, _) => src_struct_fields(fs),
            ContainerFormatV::Enum(..) => Seq::empty(),
        });
        self.output_struct_container(name, &fields);
    }
}

} // verus!

verus! {

impl<'a> SwiftEmitter<'a> {
    fn list_body(&self, g: &Format) -> (r: String)
        requires
            self.wf(),
        ensures
            r@ == src_list_body(self.cfg(), g@),
    {
        let mut r = concat4(
            "\nlet length = try deserializer.deserialize_len()\nvar obj : [",
            self.quote_type(g).as_str(),
            "] = []\nfor _ in 0..<length {\n    obj.append(",
            quote_deserialize(g).as_str(),
        );
        r.append(")\n}\nreturn obj\n");
        r
    }

    fn deserialize_body(&self, f: &Format) -> (r: String)
        requires
            self.wf(),
        ensures
            r@ == src_deserialize_body(self.cfg(), f@),
    {
        match f {
            Format::Option(g) => concat3(
                "\nlet tag = try deserializer.deserialize_option_tag()\nif tag {\n    return ",
                quote_deserialize(g).as_str(),
                "\n} else {\n    return nil\n}\n",
            ),
            Format::Sequence(g) | Format::SetOf(g) => self.list_body(g),
            Format::MapOf { key, value } => {
                let mut r = concat4(
                    "\nlet length = try deserializer.deserialize_len()\nvar obj : [",
                    self.quote_type(key).as_str(),
                    ": ",
                    self.quote_type(value).as_str(),
                );
                r.append(
                    "] = [:]\nvar previous_slice = Slice(start: 0, end: 0)\nfor i in 0..<length {\n    var slice = Slice(start: 0, end: 0)\n    slice.start = deserializer.get_buffer_offset()\n    let key = ",
                );
                r.append(quote_deserialize(key).as_str());
                r.append(
                    "\n    slice.end = deserializer.get_buffer_offset()\n    if i > 0 {\n        try deserializer.check_that_key_slices_are_increasing(key1: previous_slice, key2: slice)\n    }\n    previous_slice = slice\n    obj[key] = ",
                );
                r.append(quote_deserialize(value).as_str());
                r.append("\n}\nreturn obj\n");
                r
            },
            Format::Tuple(v) => {
                proof {
                    lemma_formats_view(v@);
                }
                let ghost s = formats_view(v@);
                let mut parts: Vec<String> = Vec::new();
                let mut i: usize = 0;
                while i < v.len()
                    invariant
                        i <= v.len() == s.len(),
                        s == formats_view(v@),
                        formats_view(v@) == seq_view(v@),
                        parts@.len() == i,
                        forall|j: int| 0 <= j < i ==> (#[trigger] parts@[j])@ == swift_deserialize_value(s[j]),
                    decreases v.len() - i,
                {
                    parts.push(quote_deserialize(&v[i]));
                    i = i + 1;
                }
                assert(strings_view(parts@) =~= s.map_values(|g: FormatV| swift_deserialize_value(g)));
                let mut r = concat3("\nreturn Tuple", usize_to_string(v.len()).as_str(), ".init(");
                r.append(join_with(&parts, ", ").as_str());
                r.append(")\n");
                r
            },
            Format::TupleArray { content, size } => {
                let mut r = concat4(
                    "\nvar obj : [",
                    self.quote_type(content).as_str(),
                    "] = []\nfor _ in 0..<",
                    usize_to_string(*size).as_str(),
                );
                r.append(" {\n    obj.append(");
                r.append(quote_deserialize(content).as_str());
                r.append(")\n}\nreturn obj\n");
                r
            },
            _ => String::new(),
        }
    }

    fn output_serialization_helper(&mut self, name: &str, f: &Format)
        requires
            old(self).wf(),
            needs_helper(f@),
        ensures
            final(self).out@ == src_serialization_helper(old(self).out@, old(self).cfg(), name@, f@),
            kept(*final(self), *old(self)),
    {
        let mut head = concat4("func serialize_", name, "<S: Serializer>(value: ", self.quote_type(f).as_str());
        head.append(", serializer: S) throws {");
        let body = serialize_body(f);
        self.out.write_string(&head);
        self.out.indent();
        self.out.write_string(&body);
        self.out.unindent();
        self.out.write_str("}\n\n");
    }

    fn output_deserialization_helper(&mut self, name: &str, f: &Format)
        requires
            old(self).wf(),
        ensures
            final(self).out@ == src_deserialization_helper(old(self).out@, old(self).cfg(), name@, f@),
            kept(*final(self), *old(self)),
    {
        let mut head = concat4("func deserialize_", name, "<D: Deserializer>(deserializer: D) throws -> ", self.quote_type(f).as_str());
        head.append(" {");
        let body = self.deserialize_body(f);
        self.out.write_string(&head);
        self.out.indent();
        self.out.write_string(&body);
        self.out.unindent();
        self.out.write_str("}\n\n");
    }

    /// Writes the serialization helpers of every composite format of `registry`, by
    /// mangled name.
    pub fn output_trait_helpers(&mut self, registry: &Registry)
        requires
            old(self).wf(),
        ensures
            final(self).out@ == src_helpers(old(self).out@, old(self).cfg(), helpers(entries_subformats(registry@))),
            strictly_sorted(entry_keys(helpers(entries_subformats(registry@)))),
            forall|k: Seq<char>|
                #[trigger] entry_keys(helpers(entries_subformats(registry@))).contains(k) <==> exists|i: int|
                    0 <= i < entries_subformats(registry@).len() && needs_helper(#[trigger] entries_subformats(registry@)[i])
                        && mangled(entries_subformats(registry@)[i]) == k,
            kept(*final(self), *old(self)),
    {
        let fs = registry_subformats(registry);
        let d = collect_helpers(&fs);
        let ghost h = helpers(entries_subformats(registry@));
        let ghost start = self.out@;
        let mut i: usize = 0;
        assert(h.take(0) =~= Seq::<(Seq<char>, FormatV)>::empty());
        while i < d.len()
            invariant
                i <= d@.len() == h.len(),
                d@ == h,
                forall|j: int| 0 <= j < d@.len() ==> needs_helper(#[trigger] d@[j].1),
                kept(*self, *old(self)),
                old(self).wf(),
                self.out@ == src_helpers(start, old(self).cfg(), h.take(i as int)),
            decreases d@.len() - i,
        {
            let (name, f) = d.entry(i);
            assert(needs_helper(d@[i as int].1));
            self.output_serialization_helper(name.as_str(), f);
            self.output_deserialization_helper(name.as_str(), f);
            assert(h.take(i + 1).drop_last() =~= h.take(i as int));
            i = i + 1;
        }
        assert(h.take(d@.len() as int) =~= h);
    }
}

} // verus!

verus! {

/// The namespaces whose modules a source file imports besides `Serde`: those of the
/// external definitions, then those of the external packages.
pub open spec fn src_import_namespaces(cfg: SourceConfig) -> Seq<Seq<char>> {
    definition_namespaces(cfg.definitions) + cfg.packages
}

impl<'a> SwiftEmitter<'a> {
    /// Writes the imports: `Serde` and the module of each namespace of the external
    /// definitions and packages, in upper camel case, sorted, each once.
    pub fn output_preamble(&mut self)
        ensures
            final(self).out@ == sw_module(old(self).out@, true, src_import_namespaces(old(self).cfg())),
            kept(*final(self), *old(self)),
    {
        let defs = &self.generator.config.external_definitions;
        let pkgs = &self.generator.config.external_packages;
        let ghost namespaces = src_import_namespaces(self.cfg());
        let mut names: Vec<String> = Vec::new();
        let mut i: usize = 0;
        while i < defs.len()
            invariant
                i <= defs@.len(),
                names@.len() == i,
                forall|j: int| 0 <= j < i ==> (#[trigger] names@[j])@ == defs@[j].0,
            decreases defs@.len() - i,
        {
            let (ns, _) = defs.entry(i);
            names.push(ns.clone());
            i = i + 1;
        }
        let mut k: usize = 0;
        while k < pkgs.len()
            invariant
                k <= pkgs@.len(),
                names@.len() == defs@.len() + k,
                forall|j: int| 0 <= j < defs@.len() ==> (#[trigger] names@[j])@ == defs@[j].0,
                forall|j: int| 0 <= j < k ==> (#[trigger] names@[defs@.len() + j])@ == pkgs@[j].0,
            decreases pkgs@.len() - k,
        {
            let (ns, _) = pkgs.entry(k);
            names.push(ns.clone());
            k = k + 1;
        }
        assert(strings_view(names@) =~= namespaces) by {
            assert forall|j: int| 0 <= j < names@.len() implies strings_view(names@)[j] == namespaces[j] by {
                if j >= defs@.len() {
                    let t = j - defs@.len();
                    assert(names@[defs@.len() + t] == names@[j]);
                }
            }
        }
        let mut imports: Vec<String> = Vec::new();
        proof {
            reveal_strlit("Serde");
            assert(strings_view(imports@) =~= Seq::<Seq<char>>::empty());
        }
        insert_sorted(&mut imports, String::from_str("Serde"));
        assert(strings_view(imports@).to_set() =~= imports_upto(true, namespaces, 0));
        let n = names.len();
        let mut i: usize = 0;
        while i < n
            invariant
                i <= n == names@.len() == namespaces.len(),
                strings_view(names@) == namespaces,
                strictly_sorted(strings_view(imports@)),
                strings_view(imports@).to_set() == imports_upto(true, namespaces, i as int),
            decreases n - i,
        {
            insert_sorted(&mut imports, to_upper_camel_case(names[i].as_str()));
            proof {
                assert(namespaces[i as int] == names@[i as int]@);
                lemma_imports_upto_step(true, namespaces, i as int);
                assert(strings_view(imports@).to_set() =~= imports_upto(true, namespaces, i + 1));
            }
            i = i + 1;
        }
        proof {
            assert(imports_upto(true, namespaces, n as int) =~= import_set(true, namespaces));
            lemma_sorted_unique(strings_view(imports@), sorted_texts(import_set(true, namespaces)));
        }
        let ghost start = self.out@;
        let ghost sorted = strings_view(imports@);
        let mut m: usize = 0;
        assert(sorted.take(0) =~= Seq::<Seq<char>>::empty());
        while m < imports.len()
            invariant
                m <= imports.len(),
                sorted == strings_view(imports@),
                kept(*self, *old(self)),
                self.out@ == sw_imports(start, sorted.take(m as int)),
            decreases imports.len() - m,
        {
            self.out.write_line(concat("import ", imports[m].as_str()).as_str());
            assert(sorted.take(m + 1).drop_last() =~= sorted.take(m as int));
            m = m + 1;
        }
        assert(sorted.take(imports.len() as int) =~= sorted);
    }
}

} // verus!

verus! {

broadcast use {
    lemma_put_line_keeps_indentation,
    lemma_put_str_same_indentation,
    lemma_put_newline_keeps_indentation,
    lemma_indented_prefix,
    lemma_unindented_after,
};

pub broadcast proof fn lemma_src_put_lines_keeps_indentation(w: WriterState, ls: Seq<Seq<char>>)
    ensures
        same_indentation(w, #[trigger] src_put_lines(w, ls)),
    decreases ls.len(),
{
    if ls.len() > 0 {
        lemma_src_put_lines_keeps_indentation(w, ls.drop_last());
    }
}

pub broadcast proof fn lemma_src_comment_keeps_indentation(w: WriterState, cfg: SourceConfig, ns: Seq<Seq<char>>, name: Seq<char>)
    ensures
        same_indentation(w, #[trigger] src_comment(w, cfg, ns, name)),
{
}

pub broadcast proof fn lemma_src_custom_code_keeps_indentation(w: WriterState, cfg: SourceConfig, ns: Seq<Seq<char>>, name: Seq<char>)
    ensures
        same_indentation(w, #[trigger] src_custom_code(w, cfg, ns, name)),
{
}

pub broadcast proof fn lemma_src_field_decls_keeps_indentation(
    w: WriterState,
    cfg: SourceConfig,
    ns: Seq<Seq<char>>,
    fields: Seq<NamedV<FormatV>>,
)
    ensures
        same_indentation(w, #[trigger] src_field_decls(w, cfg, ns, fields)),
    decreases fields.len(),
{
    broadcast use lemma_src_comment_keeps_indentation;
    if fields.len() > 0 {
        lemma_src_field_decls_keeps_indentation(w, cfg, ns, fields.drop_last());
    }
}

pub broadcast proof fn lemma_src_struct_serialization_keeps_indentation(
    w: WriterState,
    cfg: SourceConfig,
    name: Seq<char>,
    fields: Seq<NamedV<FormatV>>,
)
    ensures
        same_indentation(w, #[trigger] src_struct_serialization(w, cfg, name, fields)),
{
    broadcast use lemma_src_put_lines_keeps_indentation;
}

/// A struct leaves the indentation as it found it.
pub broadcast proof fn lemma_src_struct_keeps_indentation(
    w: WriterState,
    cfg: SourceConfig,
    ns: Seq<Seq<char>>,
    name: Seq<char>,
    fields: Seq<NamedV<FormatV>>,
)
    ensures
        same_indentation(w, #[trigger] src_struct(w, cfg, ns, name, fields)),
{
    broadcast use {
        lemma_src_put_lines_keeps_indentation,
        lemma_src_comment_keeps_indentation,
        lemma_src_custom_code_keeps_indentation,
        lemma_src_field_decls_keeps_indentation,
        lemma_src_struct_serialization_keeps_indentation,
    };
}

pub broadcast proof fn lemma_src_variants_keeps_indentation(
    w: WriterState,
    cfg: SourceConfig,
    ns: Seq<Seq<char>>,
    vs: Seq<(u32, NamedV<VariantFormatV>)>,
)
    ensures
        same_indentation(w, #[trigger] src_variants(w, cfg, ns, vs)),
    decreases vs.len(),
{
    broadcast use lemma_src_comment_keeps_indentation;
    if vs.len() > 0 {
        lemma_src_variants_keeps_indentation(w, cfg, ns, vs.drop_last());
    }
}

pub broadcast proof fn lemma_src_variants_serialize_keeps_indentation(
    w: WriterState,
    cfg: SourceConfig,
    vs: Seq<(u32, NamedV<VariantFormatV>)>,
)
    ensures
        same_indentation(w, #[trigger] src_variants_serialize(w, cfg, vs)),
    decreases vs.len(),
{
    broadcast use lemma_src_put_lines_keeps_indentation;
    if vs.len() > 0 {
        lemma_src_variants_serialize_keeps_indentation(w, cfg, vs.drop_last());
    }
}

pub broadcast proof fn lemma_src_variants_deserialize_keeps_indentation(
    w: WriterState,
    cfg: SourceConfig,
    vs: Seq<(u32, NamedV<VariantFormatV>)>,
)
    ensures
        same_indentation(w, #[trigger] src_variants_deserialize(w, cfg, vs)),
    decreases vs.len(),
{
    broadcast use lemma_src_put_lines_keeps_indentation;
    if vs.len() > 0 {
        lemma_src_variants_deserialize_keeps_indentation(w, cfg, vs.drop_last());
    }
}

pub broadcast proof fn lemma_src_enum_serialization_keeps_indentation(
    w: WriterState,
    cfg: SourceConfig,
    name: Seq<char>,
    vs: Seq<(u32, NamedV<VariantFormatV>)>,
)
    ensures
        same_indentation(w, #[trigger] src_enum_serialization(w, cfg, name, vs)),
{
    broadcast use {lemma_src_variants_serialize_keeps_indentation, lemma_src_variants_deserialize_keeps_indentation};
}

/// An enum leaves the indentation as it found it.
pub broadcast proof fn lemma_src_enum_keeps_indentation(
    w: WriterState,
    cfg: SourceConfig,
    ns: Seq<Seq<char>>,
    name: Seq<char>,
    vs: Seq<(u32, NamedV<VariantFormatV>)>,
)
    ensures
        same_indentation(w, #[trigger] src_enum(w, cfg, ns, name, vs)),
{
    broadcast use {
        lemma_src_comment_keeps_indentation,
        lemma_src_custom_code_keeps_indentation,
        lemma_src_variants_keeps_indentation,
        lemma_src_enum_serialization_keeps_indentation,
    };
}

/// Every block that the definition of a type opens, it closes: writing it leaves the
/// indentation as it found it.
pub proof fn lemma_src_container_balanced(w: WriterState, cfg: SourceConfig, ns: Seq<Seq<char>>, name: Seq<char>, c: ContainerFormatV)
    ensures
        same_indentation(w, src_container(w, cfg, ns, name, c)),
{
    broadcast use {lemma_src_struct_keeps_indentation, lemma_src_enum_keeps_indentation};
}

pub broadcast proof fn lemma_src_helpers_keeps_indentation(w: WriterState, cfg: SourceConfig, d: Seq<(Seq<char>, FormatV)>)
    ensures
        same_indentation(w, #[trigger] src_helpers(w, cfg, d)),
    decreases d.len(),
{
    if d.len() > 0 {
        lemma_src_helpers_keeps_indentation(w, cfg, d.drop_last());
    }
}

/// Every block that the helper functions open, they close.
pub proof fn lemma_src_trait_helpers_balanced(w: WriterState, cfg: SourceConfig, registry: Seq<(QualifiedTypeNameV, ContainerFormatV)>)
    ensures
        same_indentation(w, src_helpers(w, cfg, helpers(entries_subformats(registry)))),
{
    lemma_src_helpers_keeps_indentation(w, cfg, helpers(entries_subformats(registry)));
}

/// The lines `ls`, each after the indentation `ind`.
pub open spec fn lines_text(ind: Seq<char>, ls: Seq<Seq<char>>) -> Seq<char>
    decreases ls.len(),
{
    if ls.len() == 0 {
        Seq::empty()
    } else {
        lines_text(ind, ls.drop_last()) + ind + ls.last() + seq!['\n']
    }
}

/// The declaration of a stored property: `@Indirect public var name: Type`.
pub open spec fn src_field_decl(cfg: SourceConfig, f: NamedV<FormatV>) -> Seq<char> {
    "@Indirect public var "@ + f.name + ": "@ + swift_source_type(cfg, f.value)
}

/// Whether no field name or type runs over a line.
pub open spec fn one_line_fields(cfg: SourceConfig, fields: Seq<NamedV<FormatV>>) -> bool {
    forall|i: int| 0 <= i < fields.len() ==> !(#[trigger] fields[i]).name.contains('\n') && !swift_source_type(cfg, fields[i].value).contains('\n')
}

proof fn lemma_src_put_lines_text(w: WriterState, ls: Seq<Seq<char>>)
    requires
        w.at_line_start,
        forall|i: int| 0 <= i < ls.len() ==> (#[trigger] ls[i]).len() > 0 && !ls[i].contains('\n'),
    ensures
        src_put_lines(w, ls) == (WriterState { text: w.text + lines_text(w.indentation, ls), ..w }),
    decreases ls.len(),
{
    if ls.len() == 0 {
        assert(w.text + lines_text(w.indentation, ls) =~= w.text);
    } else {
        let rest = ls.drop_last();
        assert forall|i: int| 0 <= i < rest.len() implies (#[trigger] rest[i]).len() > 0 && !rest[i].contains('\n') by {
            assert(rest[i] == ls[i]);
        }
        lemma_src_put_lines_text(w, rest);
        assert(ls.last() == ls[ls.len() - 1]);
        lemma_put_line_at_start(src_put_lines(w, rest), ls.last());
        assert(w.text + lines_text(w.indentation, rest) + w.indentation + ls.last() + seq!['\n'] =~= w.text + lines_text(w.indentation, ls));
    }
}

proof fn lemma_src_field_decls_text(w: WriterState, cfg: SourceConfig, ns: Seq<Seq<char>>, fields: Seq<NamedV<FormatV>>)
    requires
        w.at_line_start,
        cfg.comments.len() == 0,
        one_line_fields(cfg, fields),
    ensures
        src_field_decls(w, cfg, ns, fields) == (WriterState {
            text: w.text + lines_text(w.indentation, fields.map_values(|f: NamedV<FormatV>| src_field_decl(cfg, f))),
            ..w
        }),
    decreases fields.len(),
{
    let ds = fields.map_values(|f: NamedV<FormatV>| src_field_decl(cfg, f));
    if fields.len() == 0 {
        assert(w.text + lines_text(w.indentation, ds) =~= w.text);
    } else {
        let rest = fields.drop_last();
        assert(one_line_fields(cfg, rest)) by {
            assert forall|i: int| 0 <= i < rest.len() implies !(#[trigger] rest[i]).name.contains('\n') && !swift_source_type(cfg, rest[i].value).contains('\n') by {
                assert(rest[i] == fields[i]);
            }
        }
        lemma_src_field_decls_text(w, cfg, ns, rest);
        let f = fields.last();
        assert(f == fields[fields.len() - 1]);
        reveal_strlit("@Indirect public var ");
        reveal_strlit(": ");
        lemma_concat_lacks("@Indirect public var "@, f.name, '\n');
        lemma_concat_lacks("@Indirect public var "@ + f.name, ": "@, '\n');
        lemma_concat_lacks("@Indirect public var "@ + f.name + ": "@, swift_source_type(cfg, f.value), '\n');
        let v = src_field_decls(w, cfg, ns, rest);
        assert(src_comment(v, cfg, ns, f.name) == v);
        lemma_put_line_at_start(v, src_field_decl(cfg, f));
        let dr = rest.map_values(|f: NamedV<FormatV>| src_field_decl(cfg, f));
        assert(ds.drop_last() =~= dr);
        assert(ds.last() == src_field_decl(cfg, f));
        assert(w.text + lines_text(w.indentation, dr) + w.indentation + src_field_decl(cfg, f) + seq!['\n'] =~= w.text + lines_text(w.indentation, ds));
    }
}

/// Without an encoding, comments or custom code, the definition of a struct is exactly: an
/// empty line; its declaration line; one `@Indirect` stored property per field, in field
/// order, one level deeper than the declaration; an empty line; the memberwise initializer,
/// whose body assigns each field in field order, one level deeper again; and the closing
/// braces. The writer ends at the indentation where it started.
pub proof fn lemma_src_plain_struct_text(w: WriterState, cfg: SourceConfig, ns: Seq<Seq<char>>, name: Seq<char>, fields: Seq<NamedV<FormatV>>)
    requires
        cfg.encoding == Encoding::Plain,
        cfg.comments.len() == 0,
        cfg.custom_code.len() == 0,
        !name.contains('\n'),
        one_line_fields(cfg, fields),
        !joined(src_lines(cfg, SourceLine::Param, fields), ", "@).contains('\n'),
    ensures
        ({
            let i = w.indentation;
            let j = w.indentation + w.unit;
            let v = src_struct(w, cfg, ns, name, fields);
            &&& v.text == w.text + "\n"@ + i + "public struct "@ + name + ": Hashable {\n"@ + lines_text(
                j,
                fields.map_values(|f: NamedV<FormatV>| src_field_decl(cfg, f)),
            ) + "\n"@ + j + "public init("@ + joined(src_lines(cfg, SourceLine::Param, fields), ", "@) + ") {\n"@ + lines_text(
                j + w.unit,
                src_lines(cfg, SourceLine::Assign, fields),
            ) + j + "}\n"@ + i + "}\n"@
            &&& v.indentation == i
            &&& v.unit == w.unit
            &&& v.at_line_start
        }),
{
    let i = w.indentation;
    let u = w.unit;
    let j = i + u;
    let inner = ns.push(name);
    let decls = fields.map_values(|f: NamedV<FormatV>| src_field_decl(cfg, f));
    let params = joined(src_lines(cfg, SourceLine::Param, fields), ", "@);
    let assigns = src_lines(cfg, SourceLine::Assign, fields);
    reveal_strlit("public struct ");
    reveal_strlit(": Hashable {");
    reveal_strlit(": Hashable {\n");
    reveal_strlit("\n");
    reveal_strlit("public init(");
    reveal_strlit(") {");
    reveal_strlit(") {\n");
    reveal_strlit("}\n");
    reveal_strlit("}");
    reveal_strlit("self.");
    reveal_strlit(" = ");
    let w1 = put_newline(w);
    assert(src_comment(w1, cfg, ns, name) == w1);
    let h = "public struct "@ + name + ": Hashable {"@;
    lemma_concat_lacks("public struct "@, name, '\n');
    lemma_concat_lacks("public struct "@ + name, ": Hashable {"@, '\n');
    lemma_put_line_at_start(w1, h);
    let w2 = indented(put_line(w1, h));
    let t1 = w.text + "\n"@ + i + "public struct "@ + name + ": Hashable {\n"@;
    assert(w2 == (WriterState { text: t1, indentation: j, unit: u, at_line_start: true })) by {
        assert(w.text.push('\n') + i + h + seq!['\n'] =~= t1);
    }
    lemma_src_field_decls_text(w2, cfg, inner, fields);
    let w3 = src_field_decls(w2, cfg, inner, fields);
    let t2 = t1 + lines_text(j, decls);
    let r = "public init("@ + params + ") {"@;
    lemma_concat_lacks("public init("@, params, '\n');
    lemma_concat_lacks("public init("@ + params, ") {"@, '\n');
    assert(("\n"@ + r).push('\n') =~= seq!['\n'] + r.push('\n'));
    lemma_put_str_concat(w3, seq!['\n'], r.push('\n'));
    lemma_put_str_single(w3, '\n');
    lemma_put_line_at_start(put_newline(w3), r);
    let w4 = put_line(w3, "\n"@ + r);
    let t3 = t2 + "\n"@ + j + "public init("@ + params + ") {\n"@;
    assert(w4 == (WriterState { text: t3, indentation: j, unit: u, at_line_start: true })) by {
        assert(t2.push('\n') + j + r + seq!['\n'] =~= t3);
    }
    assert forall|k: int| 0 <= k < assigns.len() implies (#[trigger] assigns[k]).len() > 0 && !assigns[k].contains('\n') by {
        let f = fields[k];
        assert(assigns[k] == "self."@ + f.name + " = "@ + f.name);
        assert(!f.name.contains('\n'));
        lemma_concat_lacks("self."@, f.name, '\n');
        lemma_concat_lacks("self."@ + f.name, " = "@, '\n');
        lemma_concat_lacks("self."@ + f.name + " = "@, f.name, '\n');
    }
    lemma_src_put_lines_text(indented(w4), assigns);
    let w5 = src_put_lines(indented(w4), assigns);
    let t4 = t3 + lines_text(j + u, assigns);
    assert((j + u).take(j.len() as int) =~= j);
    assert(unindented(w5) == (WriterState { text: t4, indentation: j, unit: u, at_line_start: true }));
    lemma_put_line_at_start(unindented(w5), "}"@);
    let w6 = put_line(unindented(w5), "}"@);
    let t5 = t4 + j + "}\n"@;
    assert(w6 == (WriterState { text: t5, indentation: j, unit: u, at_line_start: true })) by {
        assert(t4 + j + "}"@ + seq!['\n'] =~= t5);
    }
    assert(src_custom_code(w6, cfg, inner, name) == w6);
    assert(j.take(i.len() as int) =~= i);
    assert(unindented(w6) == (WriterState { text: t5, indentation: i, unit: u, at_line_start: true }));
    lemma_put_line_at_start(unindented(w6), "}"@);
    let w7 = put_line(unindented(w6), "}"@);
    assert(w7.text == t5 + i + "}\n"@) by {
        assert(t5 + i + "}"@ + seq!['\n'] =~= t5 + i + "}\n"@);
    }
    reveal_strlit("\npublic init(");
    assert("\npublic init("@ + params + ") {"@ =~= "\n"@ + r);
    assert(put_line(w3, "\npublic init("@ + params + ") {"@) == w4);
    assert(src_struct(w, cfg, ns, name, fields) == w7);
}

/// The declaration line of the definition of `name`.
pub open spec fn src_header(name: Seq<char>, c: ContainerFormatV) -> Seq<char> {
    match c {
        ContainerFormatV::Enum(..) => "indirect public enum "@ + name + ": Hashable {"@,
        _ => "public struct "@ + name + ": Hashable {"@,
    }
}

/// The writer after the declaration line of the definition of `name`: its body is written
/// from there.
pub open spec fn src_body_start(w: WriterState, cfg: SourceConfig, ns: Seq<Seq<char>>, name: Seq<char>, c: ContainerFormatV) -> WriterState {
    indented(put_line(src_comment(put_newline(w), cfg, ns, name), src_header(name, c)))
}

/// The body of a definition is written one level deeper than its declaration line, and the
/// definition as a whole leaves the indentation as it found it.
pub proof fn lemma_src_container_depth(w: WriterState, cfg: SourceConfig, ns: Seq<Seq<char>>, name: Seq<char>, c: ContainerFormatV)
    ensures
        src_body_start(w, cfg, ns, name, c).indentation == w.indentation + w.unit,
        src_body_start(w, cfg, ns, name, c).unit == w.unit,
        same_indentation(w, src_container(w, cfg, ns, name, c)),
{
    broadcast use {lemma_src_comment_keeps_indentation, lemma_put_newline_keeps_indentation, lemma_put_line_keeps_indentation};
    lemma_src_container_balanced(w, cfg, ns, name, c);
}

/// The helpers that the emitter writes for a map agree on the layout of an entry:
/// serializing writes each entry's key, with the key format, and then its value, with the
/// value format; deserializing reads the key, with the key format, into `key`, and then
/// the value, with the value format, into `obj[key]`.
pub proof fn lemma_src_map_helpers(cfg: SourceConfig, key: FormatV, value: FormatV)
    ensures
        ({
            let m = FormatV::MapOf { key: Box::new(key), value: Box::new(value) };
            &&& sw_serialize_body(m)
                == "\ntry serializer.serialize_len(value: value.count)\nvar offsets : [Int]  = []\nfor (key, value) in value {\n    offsets.append(serializer.get_buffer_offset())\n    "@
                + sw_quote_serialize("key"@, key) + "\n    "@ + sw_quote_serialize("value"@, value)
                + "\n}\nserializer.sort_map_entries(offsets: offsets)\n"@
            &&& src_deserialize_body(cfg, m) == "\nlet length = try deserializer.deserialize_len()\nvar obj : ["@ + swift_source_type(cfg, key)
                + ": "@ + swift_source_type(cfg, value)
                + "] = [:]\nvar previous_slice = Slice(start: 0, end: 0)\nfor i in 0..<length {\n    var slice = Slice(start: 0, end: 0)\n    slice.start = deserializer.get_buffer_offset()\n    let key = "@
                + swift_deserialize_value(key)
                + "\n    slice.end = deserializer.get_buffer_offset()\n    if i > 0 {\n        try deserializer.check_that_key_slices_are_increasing(key1: previous_slice, key2: slice)\n    }\n    previous_slice = slice\n    obj[key] = "@
                + swift_deserialize_value(value) + "\n}\nreturn obj\n"@
        }),
{
}

} // verus!
