//! Swift emitter: type definitions as structs and indirect enums; under an encoding they are
//! `Hashable` and `Equatable` and carry JSON or Bincode serialization methods.
use vstd::prelude::*;

use crate::case::{lower_camel_case, to_lower_camel_case, to_upper_camel_case, upper_camel_case};
use crate::generation::common::{primitive_name, primitive_name_str};
use crate::generation::config::Encoding;
use crate::generation::indent::{block_closed, block_opened, decimal, indented, lemma_indented_prefix, lemma_put_line_at_start, lemma_put_str_concat, lemma_put_line_keeps_indentation, lemma_unindented_after, lemma_put_newline_keeps_indentation, lemma_put_str_same_indentation, put_line, put_newline, put_str, same_indentation, unindented, usize_to_string, IndentedWriter, WriterState};
use crate::generation::Emitter;
use crate::reflection::format::{formats_view, lemma_formats_view, seq_view, ContainerFormat, ContainerFormatV, Doc, Format, FormatV, Named, NamedV, Namespace, NamespaceV, QualifiedTypeName, QualifiedTypeNameV, VariantFormat, VariantFormatV, VariantMap};
use crate::generation::module::Module;
use crate::util::text::{concat, concat3, concat4, lemma_concat_lacks, insert_sorted, join_with, joined, lemma_sorted_unique, sorted_texts, strictly_sorted, strings_view};

verus! {

/// The Swift language tag, with the encoding of the generated serialization code.
#[derive(Debug, Clone, Copy)]
pub struct Swift {
    pub encoding: Encoding,
}

impl Swift {
    pub fn new(encoding: Encoding) -> (s: Swift)
        ensures
            s.encoding == encoding,
    {
        Swift { encoding }
    }
}

/// A type name as Swift refers to it: a name of a named namespace is qualified by the
/// namespace in upper camel case.
pub open spec fn sw_type_name(q: QualifiedTypeNameV) -> Seq<char> {
    match q.namespace {
        NamespaceV::Root => q.name,
        NamespaceV::Named(ns) => upper_camel_case(ns) + "."@ + q.name,
    }
}

/// The Swift type expression for `f`. With the Serde runtime (`serde`), the unit type and
/// tuples are its `Unit` and `TupleN`, which are `Hashable`; without it, Swift's own `Void`
/// and tuple types.
pub open spec fn sw_type(f: FormatV, serde: bool) -> Seq<char>
    decreases f,
{
    match f {
        FormatV::TypeName(q) => sw_type_name(q),
        FormatV::Unit => if serde {
            "Unit"@
        } else {
            "Void"@
        },
        FormatV::Bool => "Bool"@,
        FormatV::I8 => "Int8"@,
        FormatV::I16 => "Int16"@,
        FormatV::I32 => "Int32"@,
        FormatV::I64 => "Int64"@,
        FormatV::I128 => "Int128"@,
        FormatV::U8 => "UInt8"@,
        FormatV::U16 => "UInt16"@,
        FormatV::U32 => "UInt32"@,
        FormatV::U64 => "UInt64"@,
        FormatV::U128 => "UInt128"@,
        FormatV::F32 => "Float"@,
        FormatV::F64 => "Double"@,
        FormatV::Char => "Character"@,
        FormatV::Str => "String"@,
        FormatV::Bytes => "[UInt8]"@,
        FormatV::Option(g) => sw_type(*g, serde) + "?"@,
        FormatV::Sequence(g) => "["@ + sw_type(*g, serde) + "]"@,
        FormatV::TupleArray { content, size: _ } => "["@ + sw_type(*content, serde) + "]"@,
        FormatV::SetOf(g) => "Set<"@ + sw_type(*g, serde) + ">"@,
        FormatV::MapOf { key, value } => "["@ + sw_type(*key, serde) + ": "@ + sw_type(*value, serde) + "]"@,
        FormatV::Tuple(s) => if s.len() == 1 {
            sw_type_list(s, serde)
        } else if serde {
            "Tuple"@ + decimal(s.len()) + "<"@ + sw_type_list(s, serde) + ">"@
        } else {
            "("@ + sw_type_list(s, serde) + ")"@
        },
    }
}

/// The Swift types of `s`, separated by `", "`.
pub open spec fn sw_type_list(s: Seq<FormatV>, serde: bool) -> Seq<char>
    decreases s,
{
    if s.len() == 0 {
        Seq::empty()
    } else if s.len() == 1 {
        sw_type(s.last(), serde)
    } else {
        sw_type_list(s.drop_last(), serde) + ", "@ + sw_type(s.last(), serde)
    }
}

/// How Swift refers to a type name.
pub fn swift_type_name(q: &QualifiedTypeName) -> (r: String)
    ensures
        r@ == sw_type_name(q@),
{
    match &q.namespace {
        Namespace::Root => q.name.clone(),
        Namespace::Named(ns) => concat3(to_upper_camel_case(ns.as_str()).as_str(), ".", q.name.as_str()),
    }
}

/// The Swift type expression for a format.
pub fn swift_type(f: &Format, serde: bool) -> (r: String)
    ensures
        r@ == sw_type(f@, serde),
    decreases f, 0nat,
{
    match f {
        Format::TypeName(q) => swift_type_name(q),
        Format::Unit => if serde {
            String::from_str("Unit")
        } else {
            String::from_str("Void")
        },
        Format::Bool => String::from_str("Bool"),
        Format::I8 => String::from_str("Int8"),
        Format::I16 => String::from_str("Int16"),
        Format::I32 => String::from_str("Int32"),
        Format::I64 => String::from_str("Int64"),
        Format::I128 => String::from_str("Int128"),
        Format::U8 => String::from_str("UInt8"),
        Format::U16 => String::from_str("UInt16"),
        Format::U32 => String::from_str("UInt32"),
        Format::U64 => String::from_str("UInt64"),
        Format::U128 => String::from_str("UInt128"),
        Format::F32 => String::from_str("Float"),
        Format::F64 => String::from_str("Double"),
        Format::Char => String::from_str("Character"),
        Format::Str => String::from_str("String"),
        Format::Bytes => String::from_str("[UInt8]"),
        Format::Option(g) => concat(swift_type(g, serde).as_str(), "?"),
        Format::Sequence(g) => concat3("[", swift_type(g, serde).as_str(), "]"),
        Format::TupleArray { content, size: _ } => concat3("[", swift_type(content, serde).as_str(), "]"),
        Format::SetOf(g) => concat3("Set<", swift_type(g, serde).as_str(), ">"),
        Format::MapOf { key, value } => {
            let mut r = concat4("[", swift_type(key, serde).as_str(), ": ", swift_type(value, serde).as_str());
            r.append("]");
            r
        },
        Format::Tuple(v) => {
            proof {
                lemma_formats_view(v@);
            }
            if v.len() == 1 {
                swift_type_list(v, serde)
            } else if serde {
                let mut r = concat3("Tuple", usize_to_string(v.len()).as_str(), "<");
                r.append(swift_type_list(v, serde).as_str());
                r.append(">");
                r
            } else {
                concat3("(", swift_type_list(v, serde).as_str(), ")")
            }
        },
    }
}

/// The Swift types of a vector of formats, separated by `", "`.
pub fn swift_type_list(v: &Vec<Format>, serde: bool) -> (r: String)
    ensures
        r@ == sw_type_list(formats_view(v@), serde),
    decreases v@, 1nat,
{
    let mut out = String::new();
    let mut i: usize = 0;
    proof {
        assert(v@.take(0) =~= Seq::<Format>::empty());
    }
    while i < v.len()
        invariant
            i <= v.len(),
            out@ == sw_type_list(formats_view(v@.take(i as int)), serde),
        decreases v.len() - i,
    {
        proof {
            assert(decreases_to!(v@ => v@[i as int]));
            assert(v@.take(i + 1).drop_last() =~= v@.take(i as int));
        }
        let ghost before = out@;
        if i > 0 {
            out.append(", ");
        }
        let t = swift_type(&v[i], serde);
        out.append(t.as_str());
        proof {
            let s = formats_view(v@.take(i + 1));
            lemma_formats_view(v@.take(i + 1));
            lemma_formats_view(v@.take(i as int));
            assert(s.len() == i + 1);
            assert(s.drop_last() == formats_view(v@.take(i as int)));
            assert(s.last() == v@[i as int]@);
            if i == 0 {
                assert(before.len() == 0);
                assert(out@ =~= t@);
            } else {
                assert(out@ =~= before + ", "@ + t@);
            }
        }
        i = i + 1;
    }
    assert(v@.take(v.len() as int) =~= v@);
    out
}

impl Emitter<Swift> for Format {
    open spec fn emitted(&self, w: WriterState, lang: Swift) -> WriterState {
        put_str(w, sw_type(self@, lang.encoding != Encoding::Plain))
    }

    fn write(&self, w: &mut IndentedWriter, lang: Swift) {
        w.write_string(&swift_type(self, !lang.encoding.is_none()));
    }
}

/// Documentation comments, one `///` line each; none under Bincode.
pub open spec fn sw_doc(w: WriterState, doc: Seq<Seq<char>>, encoding: Encoding) -> WriterState
    decreases doc.len(),
{
    if encoding == Encoding::Bincode || doc.len() == 0 {
        w
    } else {
        put_line(sw_doc(w, doc.drop_last(), encoding), "/// "@ + doc.last())
    }
}

impl Emitter<Swift> for Doc {
    open spec fn emitted(&self, w: WriterState, lang: Swift) -> WriterState {
        sw_doc(w, self@, lang.encoding)
    }

    fn write(&self, w: &mut IndentedWriter, lang: Swift) {
        if lang.encoding.is_bincode() {
            return;
        }
        let comments = self.comments();
        let mut i: usize = 0;
        assert(seq_view(comments@).take(0) =~= Seq::<Seq<char>>::empty());
        while i < comments.len()
            invariant
                i <= comments.len(),
                lang.encoding != Encoding::Bincode,
                seq_view(comments@) == self@,
                w@ == sw_doc(old(w)@, self@.take(i as int), lang.encoding),
            decreases comments.len() - i,
        {
            w.write_line(concat("/// ", comments[i].as_str()).as_str());
            assert(self@.take(i + 1).drop_last() =~= self@.take(i as int));
            i = i + 1;
        }
        assert(self@.take(comments.len() as int) =~= self@);
    }
}

pub open spec fn sw_push_ser(w: WriterState) -> WriterState {
    put_line(w, "try serializer.increase_container_depth()"@)
}

pub open spec fn sw_pop_ser(w: WriterState) -> WriterState {
    put_line(w, "try serializer.decrease_container_depth()"@)
}

pub open spec fn sw_push_deser(w: WriterState) -> WriterState {
    put_line(w, "try deserializer.increase_container_depth()"@)
}

pub open spec fn sw_pop_deser(w: WriterState) -> WriterState {
    put_line(w, "try deserializer.decrease_container_depth()"@)
}

fn push_serializer(w: &mut IndentedWriter)
    ensures
        final(w)@ == sw_push_ser(old(w)@),
{
    w.write_line("try serializer.increase_container_depth()");
}

fn pop_serializer(w: &mut IndentedWriter)
    ensures
        final(w)@ == sw_pop_ser(old(w)@),
{
    w.write_line("try serializer.decrease_container_depth()");
}

fn push_deserializer(w: &mut IndentedWriter)
    ensures
        final(w)@ == sw_push_deser(old(w)@),
{
    w.write_line("try deserializer.increase_container_depth()");
}

fn pop_deserializer(w: &mut IndentedWriter)
    ensures
        final(w)@ == sw_pop_deser(old(w)@),
{
    w.write_line("try deserializer.decrease_container_depth()");
}

/// The `bincodeSerialize` method, after a blank line.
pub open spec fn sw_bincode_serialize(w: WriterState) -> WriterState {
    put_str(
        put_newline(w),
        "public func bincodeSerialize() throws -> [UInt8] {\n    let serializer = BincodeSerializer.init();\n    try self.serialize(serializer: serializer)\n    return serializer.get_bytes()\n}\n"@,
    )
}

/// The `bincodeDeserialize` method, after a blank line.
pub open spec fn sw_bincode_deserialize(w: WriterState, name: Seq<char>) -> WriterState {
    put_str(
        put_newline(w),
        "public static func bincodeDeserialize(input: [UInt8]) throws -> "@ + name
            + " {\n    let deserializer = BincodeDeserializer.init(input: input);\n    let obj = try deserialize(deserializer: deserializer)\n    if deserializer.get_buffer_offset() < input.count {\n        throw DeserializationError.invalidInput(issue: \"Some input bytes were not read\")\n    }\n    return obj\n}\n"@,
    )
}

/// The `jsonSerialize` method, after a blank line.
pub open spec fn sw_json_serialize(w: WriterState) -> WriterState {
    put_str(
        put_newline(w),
        "public func jsonSerialize() throws -> [UInt8] {\n    let serializer = JsonSerializer.init();\n    try self.serialize(serializer: serializer)\n    return serializer.get_bytes()\n}\n"@,
    )
}

/// The `jsonDeserialize` method, after a blank line.
pub open spec fn sw_json_deserialize(w: WriterState, name: Seq<char>) -> WriterState {
    put_str(
        put_newline(w),
        "public static func jsonDeserialize(input: [UInt8]) throws -> "@ + name
            + " {\n    let deserializer = JsonDeserializer.init(input: input);\n    let obj = try deserialize(deserializer: deserializer)\n    if deserializer.get_buffer_offset() < input.count {\n        throw DeserializationError.invalidInput(issue: \"Some input bytes were not read\")\n    }\n    return obj\n}\n"@,
    )
}

fn write_bincode_serialize(w: &mut IndentedWriter)
    ensures
        final(w)@ == sw_bincode_serialize(old(w)@),
{
    w.newline();
    w.write_str(
        "public func bincodeSerialize() throws -> [UInt8] {\n    let serializer = BincodeSerializer.init();\n    try self.serialize(serializer: serializer)\n    return serializer.get_bytes()\n}\n",
    );
}

fn write_bincode_deserialize(w: &mut IndentedWriter, name: &str)
    ensures
        final(w)@ == sw_bincode_deserialize(old(w)@, name@),
{
    w.newline();
    let text = concat3(
        "public static func bincodeDeserialize(input: [UInt8]) throws -> ",
        name,
        " {\n    let deserializer = BincodeDeserializer.init(input: input);\n    let obj = try deserialize(deserializer: deserializer)\n    if deserializer.get_buffer_offset() < input.count {\n        throw DeserializationError.invalidInput(issue: \"Some input bytes were not read\")\n    }\n    return obj\n}\n",
    );
    w.write_string(&text);
}

fn write_json_serialize(w: &mut IndentedWriter)
    ensures
        final(w)@ == sw_json_serialize(old(w)@),
{
    w.newline();
    w.write_str(
        "public func jsonSerialize() throws -> [UInt8] {\n    let serializer = JsonSerializer.init();\n    try self.serialize(serializer: serializer)\n    return serializer.get_bytes()\n}\n",
    );
}

fn write_json_deserialize(w: &mut IndentedWriter, name: &str)
    ensures
        final(w)@ == sw_json_deserialize(old(w)@, name@),
{
    w.newline();
    let text = concat3(
        "public static func jsonDeserialize(input: [UInt8]) throws -> ",
        name,
        " {\n    let deserializer = JsonDeserializer.init(input: input);\n    let obj = try deserialize(deserializer: deserializer)\n    if deserializer.get_buffer_offset() < input.count {\n        throw DeserializationError.invalidInput(issue: \"Some input bytes were not read\")\n    }\n    return obj\n}\n",
    );
    w.write_string(&text);
}

} // verus!

verus! {

/// Serializing a value of format `f`, held in the Swift expression `value`.
pub open spec fn sw_format_serialize(w: WriterState, f: FormatV, value: Seq<char>) -> WriterState
    decreases f,
{
    match f {
        FormatV::TypeName(_) => put_line(w, "try "@ + value + ".serialize(serializer: serializer)"@),
        FormatV::Option(g) => put_line(
            unindented(sw_format_serialize(
                indented(put_line(w, "try serializeOption(value: "@ + value + ", serializer: serializer) { value, serializer in"@)),
                *g,
                "value"@,
            )),
            "}"@,
        ),
        FormatV::Sequence(g) => put_line(
            unindented(sw_format_serialize(
                indented(put_line(w, "try serializeArray(value: "@ + value + ", serializer: serializer) { item, serializer in"@)),
                *g,
                "item"@,
            )),
            "}"@,
        ),
        FormatV::SetOf(g) => put_line(
            unindented(sw_format_serialize(
                indented(put_line(w, "try serializeSet(value: "@ + value + ", serializer: serializer) { item, serializer in"@)),
                *g,
                "item"@,
            )),
            "}"@,
        ),
        FormatV::MapOf { key, value: v } => put_line(
            unindented(sw_format_serialize(
                sw_format_serialize(
                    indented(put_line(w, "try serializeMap(value: "@ + value + ", serializer: serializer) { key, value, serializer in"@)),
                    *key,
                    "key"@,
                ),
                *v,
                "value"@,
            )),
            "}"@,
        ),
        FormatV::Tuple(s) => sw_serialize_elems(w, s, value),
        FormatV::TupleArray { content, .. } => put_line(
            unindented(sw_format_serialize(
                indented(put_line(w, "try serializeTupleArray(value: "@ + value + ", serializer: serializer) { item, serializer in"@)),
                *content,
                "item"@,
            )),
            "}"@,
        ),
        _ => put_line(w, "try serializer.serialize_"@ + primitive_name(f) + "(value: "@ + value + ")"@),
    }
}

/// Serializing the elements of a tuple held in `value`, as `value.field0`, `value.field1`, ...
pub open spec fn sw_serialize_elems(w: WriterState, s: Seq<FormatV>, value: Seq<char>) -> WriterState
    decreases s,
{
    if s.len() == 0 {
        w
    } else {
        sw_format_serialize(
            sw_serialize_elems(w, s.drop_last(), value),
            s.last(),
            value + ".field"@ + decimal((s.len() - 1) as nat),
        )
    }
}

fn write_closure_serialize(w: &mut IndentedWriter, head: &str, value: &str, tail: &str, inner: &Format, param: &str)
    ensures
        final(w)@ == put_line(
            unindented(sw_format_serialize(indented(put_line(old(w)@, head@ + value@ + tail@)), inner@, param@)),
            "}"@,
        ),
    decreases inner, 1nat,
{
    w.write_line(concat3(head, value, tail).as_str());
    w.indent();
    write_format_serialize(w, inner, param);
    w.unindent();
    w.write_line("}");
}

fn write_format_serialize(w: &mut IndentedWriter, f: &Format, value: &str)
    ensures
        final(w)@ == sw_format_serialize(old(w)@, f@, value@),
    decreases f, 0nat,
{
    match f {
        Format::TypeName(_) => w.write_line(concat3("try ", value, ".serialize(serializer: serializer)").as_str()),
        Format::Option(g) => write_closure_serialize(
            w,
            "try serializeOption(value: ",
            value,
            ", serializer: serializer) { value, serializer in",
            g,
            "value",
        ),
        Format::Sequence(g) => write_closure_serialize(
            w,
            "try serializeArray(value: ",
            value,
            ", serializer: serializer) { item, serializer in",
            g,
            "item",
        ),
        Format::SetOf(g) => write_closure_serialize(
            w,
            "try serializeSet(value: ",
            value,
            ", serializer: serializer) { item, serializer in",
            g,
            "item",
        ),
        Format::MapOf { key, value: v } => {
            w.write_line(concat3("try serializeMap(value: ", value, ", serializer: serializer) { key, value, serializer in").as_str());
            w.indent();
            write_format_serialize(w, key, "key");
            write_format_serialize(w, v, "value");
            w.unindent();
            w.write_line("}");
        },
        Format::Tuple(v) => {
            proof {
                lemma_formats_view(v@);
            }
            write_serialize_elems(w, v, value);
        },
        Format::TupleArray { content, .. } => write_closure_serialize(
            w,
            "try serializeTupleArray(value: ",
            value,
            ", serializer: serializer) { item, serializer in",
            content,
            "item",
        ),
        _ => {
            let mut line = concat4("try serializer.serialize_", primitive_name_str(f), "(value: ", value);
            line.append(")");
            w.write_line(line.as_str());
        },
    }
}

fn write_serialize_elems(w: &mut IndentedWriter, v: &Vec<Format>, value: &str)
    ensures
        final(w)@ == sw_serialize_elems(old(w)@, formats_view(v@), value@),
    decreases v@, 2nat,
{
    let mut i: usize = 0;
    assert(formats_view(v@.take(0)) =~= Seq::<FormatV>::empty());
    while i < v.len()
        invariant
            i <= v.len(),
            w@ == sw_serialize_elems(old(w)@, formats_view(v@.take(i as int)), value@),
        decreases v.len() - i,
    {
        proof {
            assert(decreases_to!(v@ => v@[i as int]));
        }
        let expr = concat3(value, ".field", usize_to_string(i).as_str());
        write_format_serialize(w, &v[i], expr.as_str());
        proof {
            let s = formats_view(v@.take(i + 1));
            lemma_formats_view(v@.take(i + 1));
            lemma_formats_view(v@.take(i as int));
            assert(s.drop_last() == formats_view(v@.take(i as int)));
            assert(s.last() == v@[i as int]@);
        }
        i = i + 1;
    }
    assert(v@.take(v.len() as int) =~= v@);
}

/// `prefix0, prefix1, ...`: `n` names.
pub open spec fn sw_names(prefix: Seq<char>, n: nat) -> Seq<char>
    decreases n,
{
    if n == 0 {
        Seq::empty()
    } else if n == 1 {
        prefix + decimal(0)
    } else {
        sw_names(prefix, (n - 1) as nat) + ", "@ + prefix + decimal((n - 1) as nat)
    }
}

/// `prefix0, prefix1, ...`: `n` names.
fn names_text(prefix: &str, n: usize) -> (r: String)
    ensures
        r@ == sw_names(prefix@, n as nat),
{
    let mut out = String::new();
    let mut i: usize = 0;
    while i < n
        invariant
            i <= n,
            out@ == sw_names(prefix@, i as nat),
        decreases n - i,
    {
        let ghost before = out@;
        if i > 0 {
            out.append(", ");
        }
        out.append(prefix);
        out.append(usize_to_string(i).as_str());
        proof {
            if i == 0 {
                assert(out@ =~= prefix@ + decimal(0));
            } else {
                assert(out@ =~= before + ", "@ + prefix@ + decimal(i as nat));
            }
        }
        i = i + 1;
    }
    out
}

/// Deserializing a value of format `f` into the new Swift constant `var`.
pub open spec fn sw_format_deserialize(w: WriterState, f: FormatV, var: Seq<char>) -> WriterState
    decreases f, 1nat,
{
    match f {
        FormatV::Tuple(s) => if s.len() > 1 {
            let w = sw_deserialize_elems(w, s, var + "Field"@);
            put_line(put_str(w, "let "@ + var + " = Tuple"@ + decimal(s.len()) + ".init("@ + sw_names(var + "Field"@, s.len())), ")"@)
        } else {
            put_newline(sw_deserialize_expr(put_str(w, "let "@ + var + " = "@), f))
        },
        _ => put_newline(sw_deserialize_expr(put_str(w, "let "@ + var + " = "@), f)),
    }
}

/// Deserializing the elements of a tuple into `prefix0`, `prefix1`, ...
pub open spec fn sw_deserialize_elems(w: WriterState, s: Seq<FormatV>, prefix: Seq<char>) -> WriterState
    decreases s, 2nat,
{
    if s.len() == 0 {
        w
    } else {
        sw_format_deserialize(
            sw_deserialize_elems(w, s.drop_last(), prefix),
            s.last(),
            prefix + decimal((s.len() - 1) as nat),
        )
    }
}

/// An expression that deserializes a value of format `f` (a closure body for composites).
pub open spec fn sw_deserialize_expr(w: WriterState, f: FormatV) -> WriterState
    decreases f, 0nat,
{
    match f {
        FormatV::TypeName(q) => put_str(w, "try "@ + q.name + ".deserialize(deserializer: deserializer)"@),
        FormatV::Option(g) => put_str(
            unindented(put_newline(sw_deserialize_expr(
                indented(put_line(w, "try deserializeOption(deserializer: deserializer) { deserializer in"@)),
                *g,
            ))),
            "}"@,
        ),
        FormatV::Sequence(g) => put_str(
            unindented(put_newline(sw_deserialize_expr(
                indented(put_line(w, "try deserializeArray(deserializer: deserializer) { deserializer in"@)),
                *g,
            ))),
            "}"@,
        ),
        FormatV::SetOf(g) => put_str(
            unindented(put_newline(sw_deserialize_expr(
                indented(put_line(w, "try deserializeSet(deserializer: deserializer) { deserializer in"@)),
                *g,
            ))),
            "}"@,
        ),
        FormatV::MapOf { key, value } => put_str(
            unindented(put_line(
                sw_format_deserialize(
                    sw_format_deserialize(
                        indented(put_line(w, "try deserializeMap(deserializer: deserializer) { deserializer in"@)),
                        *key,
                        "key"@,
                    ),
                    *value,
                    "value"@,
                ),
                "return (key, value)"@,
            )),
            "}"@,
        ),
        FormatV::Tuple(s) => if s.len() == 1 {
            sw_deserialize_expr(w, s[0])
        } else {
            put_str(
                sw_deserialize_elems(w, s, "field"@),
                "Tuple"@ + decimal(s.len()) + ".init("@ + sw_names("field"@, s.len()) + ")"@,
            )
        },
        FormatV::TupleArray { content, size } => put_str(
            unindented(put_newline(sw_deserialize_expr(
                indented(put_line(
                    w,
                    "try deserializeTupleArray(deserializer: deserializer, size: "@ + decimal(size as nat) + ") { deserializer in"@,
                )),
                *content,
            ))),
            "}"@,
        ),
        _ => put_str(w, "try deserializer.deserialize_"@ + primitive_name(f) + "()"@),
    }
}

fn write_format_deserialize(w: &mut IndentedWriter, f: &Format, var: &str)
    ensures
        final(w)@ == sw_format_deserialize(old(w)@, f@, var@),
    decreases f, 1nat,
{
    if let Format::Tuple(v) = f {
        proof {
            lemma_formats_view(v@);
        }
        if v.len() > 1 {
            let prefix = concat(var, "Field");
            write_deserialize_elems(w, v, prefix.as_str());
            let mut line = concat4("let ", var, " = Tuple", usize_to_string(v.len()).as_str());
            line.append(".init(");
            line.append(names_text(prefix.as_str(), v.len()).as_str());
            w.write_string(&line);
            w.write_line(")");
            return;
        }
    }
    w.write_string(&concat3("let ", var, " = "));
    write_deserialize_expr(w, f);
    w.newline();
}

fn write_deserialize_elems(w: &mut IndentedWriter, v: &Vec<Format>, prefix: &str)
    ensures
        final(w)@ == sw_deserialize_elems(old(w)@, formats_view(v@), prefix@),
    decreases v@, 2nat,
{
    let mut i: usize = 0;
    assert(formats_view(v@.take(0)) =~= Seq::<FormatV>::empty());
    while i < v.len()
        invariant
            i <= v.len(),
            w@ == sw_deserialize_elems(old(w)@, formats_view(v@.take(i as int)), prefix@),
        decreases v.len() - i,
    {
        proof {
            assert(decreases_to!(v@ => v@[i as int]));
        }
        let var = concat(prefix, usize_to_string(i).as_str());
        write_format_deserialize(w, &v[i], var.as_str());
        proof {
            let s = formats_view(v@.take(i + 1));
            lemma_formats_view(v@.take(i + 1));
            lemma_formats_view(v@.take(i as int));
            assert(s.drop_last() == formats_view(v@.take(i as int)));
            assert(s.last() == v@[i as int]@);
        }
        i = i + 1;
    }
    assert(v@.take(v.len() as int) =~= v@);
}

fn write_closure_deserialize(w: &mut IndentedWriter, head: &str, inner: &Format)
    ensures
        final(w)@ == put_str(unindented(put_newline(sw_deserialize_expr(indented(put_line(old(w)@, head@)), inner@))), "}"@),
    decreases inner, 1nat,
{
    w.write_line(head);
    w.indent();
    write_deserialize_expr(w, inner);
    w.newline();
    w.unindent();
    w.write_str("}");
}

fn write_deserialize_expr(w: &mut IndentedWriter, f: &Format)
    ensures
        final(w)@ == sw_deserialize_expr(old(w)@, f@),
    decreases f, 0nat,
{
    match f {
        Format::TypeName(q) => w.write_string(&concat3("try ", q.name.as_str(), ".deserialize(deserializer: deserializer)")),
        Format::Option(g) => write_closure_deserialize(w, "try deserializeOption(deserializer: deserializer) { deserializer in", g),
        Format::Sequence(g) => write_closure_deserialize(w, "try deserializeArray(deserializer: deserializer) { deserializer in", g),
        Format::SetOf(g) => write_closure_deserialize(w, "try deserializeSet(deserializer: deserializer) { deserializer in", g),
        Format::MapOf { key, value } => {
            w.write_line("try deserializeMap(deserializer: deserializer) { deserializer in");
            w.indent();
            write_format_deserialize(w, key, "key");
            write_format_deserialize(w, value, "value");
            w.write_line("return (key, value)");
            w.unindent();
            w.write_str("}");
        },
        Format::Tuple(v) => {
            proof {
                lemma_formats_view(v@);
            }
            if v.len() == 1 {
                write_deserialize_expr(w, &v[0]);
            } else {
                write_deserialize_elems(w, v, "field");
                let mut text = concat3("Tuple", usize_to_string(v.len()).as_str(), ".init(");
                text.append(names_text("field", v.len()).as_str());
                text.append(")");
                w.write_string(&text);
            }
        },
        Format::TupleArray { content, size } => {
            let head = concat3(
                "try deserializeTupleArray(deserializer: deserializer, size: ",
                usize_to_string(*size).as_str(),
                ") { deserializer in",
            );
            write_closure_deserialize(w, head.as_str(), content);
        },
        _ => w.write_string(&concat3("try deserializer.deserialize_", primitive_name_str(f), "()")),
    }
}

} // verus!

verus! {

/// A stored property for a field.
pub open spec fn sw_field(w: WriterState, n: NamedV<FormatV>, encoding: Encoding) -> WriterState {
    put_line(sw_doc(w, n.doc, encoding), "public var "@ + lower_camel_case(n.name) + ": "@ + sw_type(n.value, encoding != Encoding::Plain))
}

/// The stored properties of the fields.
pub open spec fn sw_fields(w: WriterState, fields: Seq<NamedV<FormatV>>, encoding: Encoding) -> WriterState
    decreases fields.len(),
{
    if fields.len() == 0 {
        w
    } else {
        sw_field(sw_fields(w, fields.drop_last(), encoding), fields.last(), encoding)
    }
}

/// A field as a parameter: `name: Type`.
pub open spec fn sw_param(n: NamedV<FormatV>, encoding: Encoding) -> Seq<char> {
    lower_camel_case(n.name) + ": "@ + sw_type(n.value, encoding != Encoding::Plain)
}

/// A field as an argument: `name: name`.
pub open spec fn sw_arg(n: NamedV<FormatV>) -> Seq<char> {
    lower_camel_case(n.name) + ": "@ + lower_camel_case(n.name)
}

/// The fields as parameters, separated by `", "`.
pub open spec fn sw_params(fields: Seq<NamedV<FormatV>>, encoding: Encoding) -> Seq<char> {
    joined(fields.map_values(|n: NamedV<FormatV>| sw_param(n, encoding)), ", "@)
}

/// The fields as arguments, separated by `", "`.
pub open spec fn sw_args(fields: Seq<NamedV<FormatV>>) -> Seq<char> {
    joined(fields.map_values(|n: NamedV<FormatV>| sw_arg(n)), ", "@)
}

/// `self.name = name` for each field.
pub open spec fn sw_assignments(w: WriterState, fields: Seq<NamedV<FormatV>>) -> WriterState
    decreases fields.len(),
{
    if fields.len() == 0 {
        w
    } else {
        let n = lower_camel_case(fields.last().name);
        put_line(sw_assignments(w, fields.drop_last()), "self."@ + n + " = "@ + n)
    }
}

/// Serializing a field `name` of `receiver`. Outside Bincode a tuple is serialized element
/// by element, each as a field of the tuple, inside its own container.
pub open spec fn sw_field_serialize(w: WriterState, name: Seq<char>, value: FormatV, receiver: Seq<char>, encoding: Encoding) -> WriterState
    decreases value, 1nat,
{
    let n = lower_camel_case(name);
    match value {
        FormatV::Tuple(s) => if encoding != Encoding::Bincode {
            sw_pop_ser(sw_tuple_serialize(sw_push_ser(w), s, n, encoding))
        } else {
            sw_format_serialize(w, value, receiver + "."@ + n)
        },
        _ => sw_format_serialize(w, value, receiver + "."@ + n),
    }
}

/// Serializing the elements of a tuple field, named `0`, `1`, ..., of `receiver`.
pub open spec fn sw_tuple_serialize(w: WriterState, s: Seq<FormatV>, receiver: Seq<char>, encoding: Encoding) -> WriterState
    decreases s, 0nat,
{
    if s.len() == 0 {
        w
    } else {
        sw_field_serialize(
            sw_tuple_serialize(w, s.drop_last(), receiver, encoding),
            decimal((s.len() - 1) as nat),
            s.last(),
            receiver,
            encoding,
        )
    }
}

/// Deserializing a field `name` into a constant of the same name. Outside Bincode a tuple
/// is deserialized element by element and then assembled.
pub open spec fn sw_field_deserialize(w: WriterState, name: Seq<char>, value: FormatV, encoding: Encoding) -> WriterState
    decreases value, 1nat,
{
    let n = lower_camel_case(name);
    match value {
        FormatV::Tuple(s) => if encoding != Encoding::Bincode {
            let w = sw_tuple_deserialize(sw_push_deser(w), s, n, encoding);
            sw_pop_deser(put_line(w, "let "@ + n + " = ("@ + sw_names(n, s.len()) + ")"@))
        } else {
            sw_format_deserialize(w, value, n)
        },
        _ => sw_format_deserialize(w, value, n),
    }
}

/// Deserializing the elements of a tuple field into `prefix0`, `prefix1`, ...
pub open spec fn sw_tuple_deserialize(w: WriterState, s: Seq<FormatV>, prefix: Seq<char>, encoding: Encoding) -> WriterState
    decreases s, 0nat,
{
    if s.len() == 0 {
        w
    } else {
        sw_field_deserialize(
            sw_tuple_deserialize(w, s.drop_last(), prefix, encoding),
            prefix + decimal((s.len() - 1) as nat),
            s.last(),
            encoding,
        )
    }
}

/// Serializing each field of `self`.
pub open spec fn sw_fields_serialize(w: WriterState, fields: Seq<NamedV<FormatV>>, encoding: Encoding) -> WriterState
    decreases fields.len(),
{
    if fields.len() == 0 {
        w
    } else {
        let f = fields.last();
        sw_field_serialize(sw_fields_serialize(w, fields.drop_last(), encoding), f.name, f.value, "self"@, encoding)
    }
}

/// Deserializing each field.
pub open spec fn sw_fields_deserialize(w: WriterState, fields: Seq<NamedV<FormatV>>, encoding: Encoding) -> WriterState
    decreases fields.len(),
{
    if fields.len() == 0 {
        w
    } else {
        let f = fields.last();
        sw_field_deserialize(sw_fields_deserialize(w, fields.drop_last(), encoding), f.name, f.value, encoding)
    }
}

fn write_field_serialize(w: &mut IndentedWriter, name: &str, value: &Format, receiver: &str, encoding: Encoding)
    ensures
        final(w)@ == sw_field_serialize(old(w)@, name@, value@, receiver@, encoding),
    decreases value, 1nat,
{
    let n = to_lower_camel_case(name);
    if let Format::Tuple(v) = value {
        proof {
            lemma_formats_view(v@);
        }
        if !encoding.is_bincode() {
            push_serializer(w);
            write_tuple_serialize(w, v, n.as_str(), encoding);
            pop_serializer(w);
            return;
        }
    }
    write_format_serialize(w, value, concat3(receiver, ".", n.as_str()).as_str());
}

fn write_tuple_serialize(w: &mut IndentedWriter, v: &Vec<Format>, receiver: &str, encoding: Encoding)
    ensures
        final(w)@ == sw_tuple_serialize(old(w)@, formats_view(v@), receiver@, encoding),
    decreases v@, 0nat,
{
    let mut i: usize = 0;
    assert(formats_view(v@.take(0)) =~= Seq::<FormatV>::empty());
    while i < v.len()
        invariant
            i <= v.len(),
            w@ == sw_tuple_serialize(old(w)@, formats_view(v@.take(i as int)), receiver@, encoding),
        decreases v.len() - i,
    {
        proof {
            assert(decreases_to!(v@ => v@[i as int]));
        }
        write_field_serialize(w, usize_to_string(i).as_str(), &v[i], receiver, encoding);
        proof {
            let s = formats_view(v@.take(i + 1));
            lemma_formats_view(v@.take(i + 1));
            lemma_formats_view(v@.take(i as int));
            assert(s.drop_last() == formats_view(v@.take(i as int)));
            assert(s.last() == v@[i as int]@);
        }
        i = i + 1;
    }
    assert(v@.take(v.len() as int) =~= v@);
}

fn write_field_deserialize(w: &mut IndentedWriter, name: &str, value: &Format, encoding: Encoding)
    ensures
        final(w)@ == sw_field_deserialize(old(w)@, name@, value@, encoding),
    decreases value, 1nat,
{
    let n = to_lower_camel_case(name);
    if let Format::Tuple(v) = value {
        proof {
            lemma_formats_view(v@);
        }
        if !encoding.is_bincode() {
            push_deserializer(w);
            write_tuple_deserialize(w, v, n.as_str(), encoding);
            let mut line = concat4("let ", n.as_str(), " = (", names_text(n.as_str(), v.len()).as_str());
            line.append(")");
            w.write_line(line.as_str());
            pop_deserializer(w);
            return;
        }
    }
    write_format_deserialize(w, value, n.as_str());
}

fn write_tuple_deserialize(w: &mut IndentedWriter, v: &Vec<Format>, prefix: &str, encoding: Encoding)
    ensures
        final(w)@ == sw_tuple_deserialize(old(w)@, formats_view(v@), prefix@, encoding),
    decreases v@, 0nat,
{
    let mut i: usize = 0;
    assert(formats_view(v@.take(0)) =~= Seq::<FormatV>::empty());
    while i < v.len()
        invariant
            i <= v.len(),
            w@ == sw_tuple_deserialize(old(w)@, formats_view(v@.take(i as int)), prefix@, encoding),
        decreases v.len() - i,
    {
        proof {
            assert(decreases_to!(v@ => v@[i as int]));
        }
        write_field_deserialize(w, concat(prefix, usize_to_string(i).as_str()).as_str(), &v[i], encoding);
        proof {
            let s = formats_view(v@.take(i + 1));
            lemma_formats_view(v@.take(i + 1));
            lemma_formats_view(v@.take(i as int));
            assert(s.drop_last() == formats_view(v@.take(i as int)));
            assert(s.last() == v@[i as int]@);
        }
        i = i + 1;
    }
    assert(v@.take(v.len() as int) =~= v@);
}

} // verus!

verus! {

fn write_fields(w: &mut IndentedWriter, fields: &Vec<Named<Format>>, encoding: Encoding)
    ensures
        final(w)@ == sw_fields(old(w)@, seq_view(fields@), encoding),
{
    let lang = Swift { encoding };
    let mut i: usize = 0;
    while i < fields.len()
        invariant
            i <= fields.len(),
            lang.encoding == encoding,
            w@ == sw_fields(old(w)@, seq_view(fields@).take(i as int), encoding),
        decreases fields.len() - i,
    {
        let f = &fields[i];
        f.doc.write(w, lang);
        let mut line = concat4("public var ", to_lower_camel_case(f.name.as_str()).as_str(), ": ", swift_type(&f.value, !encoding.is_none()).as_str());
        w.write_line(line.as_str());
        assert(seq_view(fields@).take(i + 1).drop_last() =~= seq_view(fields@).take(i as int));
        i = i + 1;
    }
    assert(seq_view(fields@).take(fields.len() as int) =~= seq_view(fields@));
}

fn param_text(n: &Named<Format>, encoding: Encoding) -> (r: String)
    ensures
        r@ == sw_param(n@, encoding),
{
    concat3(to_lower_camel_case(n.name.as_str()).as_str(), ": ", swift_type(&n.value, !encoding.is_none()).as_str())
}

fn arg_text(n: &Named<Format>) -> (r: String)
    ensures
        r@ == sw_arg(n@),
{
    let name = to_lower_camel_case(n.name.as_str());
    concat3(name.as_str(), ": ", name.as_str())
}

/// The fields as parameters, separated by `", "`.
fn params_text(fields: &Vec<Named<Format>>, encoding: Encoding) -> (r: String)
    ensures
        r@ == sw_params(seq_view(fields@), encoding),
{
    let mut parts: Vec<String> = Vec::new();
    let mut i: usize = 0;
    while i < fields.len()
        invariant
            i <= fields.len(),
            strings_view(parts@) == seq_view(fields@).take(i as int).map_values(|n: NamedV<FormatV>| sw_param(n, encoding)),
        decreases fields.len() - i,
    {
        parts.push(param_text(&fields[i], encoding));
        proof {
            let a = strings_view(parts@);
            let b = seq_view(fields@).take(i + 1).map_values(|n: NamedV<FormatV>| sw_param(n, encoding));
            let c = seq_view(fields@).take(i as int).map_values(|n: NamedV<FormatV>| sw_param(n, encoding));
            assert(seq_view(fields@).len() == fields@.len());
            assert(c.len() == i);
            assert(a.len() == parts@.len());
            assert(a.len() == b.len());
            assert forall|j: int| 0 <= j < a.len() implies a[j] == b[j] by {
                if j < i {
                    assert(a[j] == c[j]);
                } else {
                    assert(seq_view(fields@)[j] == fields@[j]@);
                }
            }
            assert(a =~= b);
        }
        i = i + 1;
    }
    assert(seq_view(fields@).take(fields.len() as int) =~= seq_view(fields@));
    join_with(&parts, ", ")
}

/// The fields as arguments, separated by `", "`.
pub(crate) fn args_text(fields: &Vec<Named<Format>>) -> (r: String)
    ensures
        r@ == sw_args(seq_view(fields@)),
{
    let mut parts: Vec<String> = Vec::new();
    let mut i: usize = 0;
    while i < fields.len()
        invariant
            i <= fields.len(),
            strings_view(parts@) == seq_view(fields@).take(i as int).map_values(|n: NamedV<FormatV>| sw_arg(n)),
        decreases fields.len() - i,
    {
        parts.push(arg_text(&fields[i]));
        proof {
            let a = strings_view(parts@);
            let b = seq_view(fields@).take(i + 1).map_values(|n: NamedV<FormatV>| sw_arg(n));
            let c = seq_view(fields@).take(i as int).map_values(|n: NamedV<FormatV>| sw_arg(n));
            assert(seq_view(fields@).len() == fields@.len());
            assert(c.len() == i);
            assert(a.len() == parts@.len());
            assert(a.len() == b.len());
            assert forall|j: int| 0 <= j < a.len() implies a[j] == b[j] by {
                if j < i {
                    assert(a[j] == c[j]);
                } else {
                    assert(seq_view(fields@)[j] == fields@[j]@);
                }
            }
            assert(a =~= b);
        }
        i = i + 1;
    }
    assert(seq_view(fields@).take(fields.len() as int) =~= seq_view(fields@));
    join_with(&parts, ", ")
}

fn write_assignments(w: &mut IndentedWriter, fields: &Vec<Named<Format>>)
    ensures
        final(w)@ == sw_assignments(old(w)@, seq_view(fields@)),
{
    let mut i: usize = 0;
    while i < fields.len()
        invariant
            i <= fields.len(),
            w@ == sw_assignments(old(w)@, seq_view(fields@).take(i as int)),
        decreases fields.len() - i,
    {
        let n = to_lower_camel_case(fields[i].name.as_str());
        w.write_line(concat4("self.", n.as_str(), " = ", n.as_str()).as_str());
        assert(seq_view(fields@).take(i + 1).drop_last() =~= seq_view(fields@).take(i as int));
        i = i + 1;
    }
    assert(seq_view(fields@).take(fields.len() as int) =~= seq_view(fields@));
}

fn write_fields_serialize(w: &mut IndentedWriter, fields: &Vec<Named<Format>>, encoding: Encoding)
    ensures
        final(w)@ == sw_fields_serialize(old(w)@, seq_view(fields@), encoding),
{
    let mut i: usize = 0;
    while i < fields.len()
        invariant
            i <= fields.len(),
            w@ == sw_fields_serialize(old(w)@, seq_view(fields@).take(i as int), encoding),
        decreases fields.len() - i,
    {
        write_field_serialize(w, fields[i].name.as_str(), &fields[i].value, "self", encoding);
        assert(seq_view(fields@).take(i + 1).drop_last() =~= seq_view(fields@).take(i as int));
        i = i + 1;
    }
    assert(seq_view(fields@).take(fields.len() as int) =~= seq_view(fields@));
}

fn write_fields_deserialize(w: &mut IndentedWriter, fields: &Vec<Named<Format>>, encoding: Encoding)
    ensures
        final(w)@ == sw_fields_deserialize(old(w)@, seq_view(fields@), encoding),
{
    let mut i: usize = 0;
    while i < fields.len()
        invariant
            i <= fields.len(),
            w@ == sw_fields_deserialize(old(w)@, seq_view(fields@).take(i as int), encoding),
        decreases fields.len() - i,
    {
        write_field_deserialize(w, fields[i].name.as_str(), &fields[i].value, encoding);
        assert(seq_view(fields@).take(i + 1).drop_last() =~= seq_view(fields@).take(i as int));
        i = i + 1;
    }
    assert(seq_view(fields@).take(fields.len() as int) =~= seq_view(fields@));
}

/// What a type definition declares after its name: the `Hashable` and `Equatable`
/// conformances under an encoding, nothing without one.
pub open spec fn sw_conformance(encoding: Encoding) -> Seq<char> {
    if encoding == Encoding::Plain {
        " "@
    } else {
        ": Hashable, Equatable "@
    }
}

fn conformance(encoding: Encoding) -> (r: &'static str)
    ensures
        r@ == sw_conformance(encoding),
{
    if encoding.is_none() {
        " "
    } else {
        ": Hashable, Equatable "
    }
}

/// A struct with one stored property per field and a memberwise initializer; under an encoding
/// it is `Hashable` and `Equatable` and has the serialization methods.
pub open spec fn sw_struct(
    w: WriterState,
    name: Seq<char>,
    fields: Seq<NamedV<FormatV>>,
    doc: Seq<Seq<char>>,
    encoding: Encoding,
) -> WriterState {
    let w = sw_doc(w, doc, encoding);
    let w = block_opened(put_str(w, "public struct "@ + name + sw_conformance(encoding)));
    let w = sw_fields(w, fields, encoding);
    let w = if fields.len() > 0 || encoding == Encoding::Bincode { put_newline(w) } else { w };
    let w = put_str(w, "public init("@ + sw_params(fields, encoding) + ") "@);
    let w = block_closed(sw_assignments(block_opened(w), fields));
    let w = if encoding == Encoding::Json || encoding == Encoding::Bincode {
        let json = encoding == Encoding::Json;
        let w = block_opened(put_str(put_newline(w), "public func serialize<S: Serializer>(serializer: S) throws "@));
        let w = block_closed(sw_pop_ser(sw_fields_serialize(sw_push_ser(w), fields, encoding)));
        let w = if json { sw_json_serialize(w) } else { sw_bincode_serialize(w) };
        let w = block_opened(put_str(
            put_newline(w),
            "public static func deserialize<D: Deserializer>(deserializer: D) throws -> "@ + name + " "@,
        ));
        let w = sw_pop_deser(sw_fields_deserialize(sw_push_deser(w), fields, encoding));
        let w = put_line(w, "return "@ + name + "("@ + sw_args(fields) + ")"@);
        let w = block_closed(w);
        if json { sw_json_deserialize(w, name) } else { sw_bincode_deserialize(w, name) }
    } else {
        w
    };
    block_closed(w)
}

fn write_struct(w: &mut IndentedWriter, name: &str, fields: &Vec<Named<Format>>, doc: &Doc, lang: Swift)
    requires
        lang.encoding != Encoding::Bcs,
    ensures
        final(w)@ == sw_struct(old(w)@, name@, seq_view(fields@), doc@, lang.encoding),
{
    let encoding = lang.encoding;
    doc.write(w, lang);
    w.write_string(&concat3("public struct ", name, conformance(encoding)));
    w.start_block();
    write_fields(w, fields, encoding);
    if fields.len() > 0 || encoding.is_bincode() {
        w.newline();
    }
    w.write_string(&concat3("public init(", params_text(fields, encoding).as_str(), ") "));
    w.start_block();
    write_assignments(w, fields);
    w.end_block();
    if encoding.is_json() || encoding.is_bincode() {
        let json = encoding.is_json();
        w.newline();
        w.write_str("public func serialize<S: Serializer>(serializer: S) throws ");
        w.start_block();
        push_serializer(w);
        write_fields_serialize(w, fields, encoding);
        pop_serializer(w);
        w.end_block();
        if json {
            write_json_serialize(w);
        } else {
            write_bincode_serialize(w);
        }
        w.newline();
        w.write_string(&concat3("public static func deserialize<D: Deserializer>(deserializer: D) throws -> ", name, " "));
        w.start_block();
        push_deserializer(w);
        write_fields_deserialize(w, fields, encoding);
        pop_deserializer(w);
        let mut line = concat3("return ", name, "(");
        line.append(args_text(fields).as_str());
        line.append(")");
        w.write_line(line.as_str());
        w.end_block();
        if json {
            write_json_deserialize(w, name);
        } else {
            write_bincode_deserialize(w, name);
        }
    }
    w.end_block();
}

} // verus!

verus! {

/// `let name` for each field of a struct variant, separated by `", "`.
pub open spec fn sw_let_fields(fields: Seq<NamedV<FormatV>>) -> Seq<char> {
    joined(fields.map_values(|n: NamedV<FormatV>| "let "@ + lower_camel_case(n.name)), ", "@)
}

/// A `case` of the enum declaration.
pub open spec fn sw_variant_field(w: WriterState, v: NamedV<VariantFormatV>, encoding: Encoding) -> WriterState {
    let w = sw_doc(w, v.doc, encoding);
    let n = lower_camel_case(v.name);
    match v.value {
        VariantFormatV::Unit => put_line(w, "case "@ + n),
        VariantFormatV::NewType(f) => put_line(w, "case "@ + n + "("@ + sw_type(f, encoding != Encoding::Plain) + ")"@),
        VariantFormatV::Tuple(s) => put_line(w, "case "@ + n + "("@ + sw_type_list(s, encoding != Encoding::Plain) + ")"@),
        VariantFormatV::Struct(fs) => put_line(w, "case "@ + n + "("@ + sw_params(fs, encoding) + ")"@),
    }
}

/// Writing the index of a variant.
pub open spec fn sw_variant_index(w: WriterState, index: nat) -> WriterState {
    put_line(w, "try serializer.serialize_variant_index(value: "@ + decimal(index) + ")"@)
}

/// Serializing the payload `x0`, `x1`, ... of a tuple variant.
pub open spec fn sw_serialize_payload(w: WriterState, s: Seq<FormatV>) -> WriterState
    decreases s.len(),
{
    if s.len() == 0 {
        w
    } else {
        sw_format_serialize(sw_serialize_payload(w, s.drop_last()), s.last(), "x"@ + decimal((s.len() - 1) as nat))
    }
}

/// Serializing the fields of a struct variant, each bound to its own name.
pub open spec fn sw_serialize_bound(w: WriterState, fields: Seq<NamedV<FormatV>>) -> WriterState
    decreases fields.len(),
{
    if fields.len() == 0 {
        w
    } else {
        let f = fields.last();
        sw_format_serialize(sw_serialize_bound(w, fields.drop_last()), f.value, lower_camel_case(f.name))
    }
}

/// Deserializing the fields of a struct variant, each into its own name.
pub open spec fn sw_deserialize_bound(w: WriterState, fields: Seq<NamedV<FormatV>>) -> WriterState
    decreases fields.len(),
{
    if fields.len() == 0 {
        w
    } else {
        let f = fields.last();
        sw_format_deserialize(sw_deserialize_bound(w, fields.drop_last()), f.value, lower_camel_case(f.name))
    }
}

/// The `case` of the serializing `switch` for the variant at position `index`.
pub open spec fn sw_variant_serialize(w: WriterState, v: NamedV<VariantFormatV>, index: nat, encoding: Encoding) -> WriterState {
    let w = sw_doc(w, v.doc, encoding);
    let n = lower_camel_case(v.name);
    match v.value {
        VariantFormatV::Unit => unindented(sw_variant_index(indented(put_line(w, "case ."@ + n + ":"@)), index)),
        VariantFormatV::NewType(f) => unindented(sw_format_serialize(
            sw_variant_index(indented(put_line(w, "case ."@ + n + "(let x):"@)), index),
            f,
            "x"@,
        )),
        VariantFormatV::Tuple(s) => unindented(sw_serialize_payload(
            sw_variant_index(indented(put_line(w, "case ."@ + n + "("@ + sw_names("let x"@, s.len()) + "):"@)), index),
            s,
        )),
        VariantFormatV::Struct(fs) => unindented(sw_serialize_bound(
            sw_variant_index(indented(put_line(w, "case ."@ + n + "("@ + sw_let_fields(fs) + "):"@)), index),
            fs,
        )),
    }
}

/// The `case` of the deserializing `switch` for the variant at position `index`.
pub open spec fn sw_variant_deserialize(w: WriterState, v: NamedV<VariantFormatV>, index: nat, encoding: Encoding) -> WriterState {
    let w = sw_doc(w, v.doc, encoding);
    let n = lower_camel_case(v.name);
    let w = indented(put_line(w, "case "@ + decimal(index) + ":"@));
    let w = match v.value {
        VariantFormatV::Unit => put_line(sw_pop_deser(w), "return ."@ + n),
        VariantFormatV::NewType(f) => put_line(sw_pop_deser(sw_format_deserialize(w, f, "x"@)), "return ."@ + n + "(x)"@),
        VariantFormatV::Tuple(s) => put_line(
            sw_pop_deser(sw_deserialize_elems(w, s, "x"@)),
            "return ."@ + n + "("@ + sw_names("x"@, s.len()) + ")"@,
        ),
        VariantFormatV::Struct(fs) => put_line(
            sw_pop_deser(sw_deserialize_bound(w, fs)),
            "return ."@ + n + "("@ + sw_args(fs) + ")"@,
        ),
    };
    unindented(w)
}

fn let_fields_text(fields: &Vec<Named<Format>>) -> (r: String)
    ensures
        r@ == sw_let_fields(seq_view(fields@)),
{
    let mut parts: Vec<String> = Vec::new();
    let mut i: usize = 0;
    while i < fields.len()
        invariant
            i <= fields.len(),
            strings_view(parts@) == seq_view(fields@).take(i as int).map_values(|n: NamedV<FormatV>| "let "@ + lower_camel_case(n.name)),
        decreases fields.len() - i,
    {
        parts.push(concat("let ", to_lower_camel_case(fields[i].name.as_str()).as_str()));
        proof {
            let a = strings_view(parts@);
            let b = seq_view(fields@).take(i + 1).map_values(|n: NamedV<FormatV>| "let "@ + lower_camel_case(n.name));
            let c = seq_view(fields@).take(i as int).map_values(|n: NamedV<FormatV>| "let "@ + lower_camel_case(n.name));
            assert(seq_view(fields@).len() == fields@.len());
            assert(c.len() == i);
            assert(a.len() == parts@.len());
            assert forall|j: int| 0 <= j < a.len() implies a[j] == b[j] by {
                if j < i {
                    assert(a[j] == c[j]);
                } else {
                    assert(seq_view(fields@)[j] == fields@[j]@);
                }
            }
            assert(a =~= b);
        }
        i = i + 1;
    }
    assert(seq_view(fields@).take(fields.len() as int) =~= seq_view(fields@));
    join_with(&parts, ", ")
}

fn write_variant_field(w: &mut IndentedWriter, v: &Named<VariantFormat>, lang: Swift)
    ensures
        final(w)@ == sw_variant_field(old(w)@, v@, lang.encoding),
{
    v.doc.write(w, lang);
    let n = to_lower_camel_case(v.name.as_str());
    match &v.value {
        VariantFormat::Unit => w.write_line(concat("case ", n.as_str()).as_str()),
        VariantFormat::NewType(f) => {
            let mut line = concat4("case ", n.as_str(), "(", swift_type(f, !lang.encoding.is_none()).as_str());
            line.append(")");
            w.write_line(line.as_str());
        },
        VariantFormat::Tuple(fs) => {
            proof {
                lemma_formats_view(fs@);
            }
            let mut line = concat4("case ", n.as_str(), "(", swift_type_list(fs, !lang.encoding.is_none()).as_str());
            line.append(")");
            w.write_line(line.as_str());
        },
        VariantFormat::Struct(ns) => {
            let mut line = concat4("case ", n.as_str(), "(", params_text(ns, lang.encoding).as_str());
            line.append(")");
            w.write_line(line.as_str());
        },
    }
}

fn write_variant_index(w: &mut IndentedWriter, index: usize)
    ensures
        final(w)@ == sw_variant_index(old(w)@, index as nat),
{
    w.write_line(concat3("try serializer.serialize_variant_index(value: ", usize_to_string(index).as_str(), ")").as_str());
}

fn write_serialize_payload(w: &mut IndentedWriter, v: &Vec<Format>)
    ensures
        final(w)@ == sw_serialize_payload(old(w)@, formats_view(v@)),
{
    let mut i: usize = 0;
    assert(formats_view(v@.take(0)) =~= Seq::<FormatV>::empty());
    while i < v.len()
        invariant
            i <= v.len(),
            w@ == sw_serialize_payload(old(w)@, formats_view(v@.take(i as int))),
        decreases v.len() - i,
    {
        write_format_serialize(w, &v[i], concat("x", usize_to_string(i).as_str()).as_str());
        proof {
            let s = formats_view(v@.take(i + 1));
            lemma_formats_view(v@.take(i + 1));
            lemma_formats_view(v@.take(i as int));
            assert(s.drop_last() == formats_view(v@.take(i as int)));
            assert(s.last() == v@[i as int]@);
        }
        i = i + 1;
    }
    assert(v@.take(v.len() as int) =~= v@);
}

fn write_serialize_bound(w: &mut IndentedWriter, fields: &Vec<Named<Format>>)
    ensures
        final(w)@ == sw_serialize_bound(old(w)@, seq_view(fields@)),
{
    let mut i: usize = 0;
    while i < fields.len()
        invariant
            i <= fields.len(),
            w@ == sw_serialize_bound(old(w)@, seq_view(fields@).take(i as int)),
        decreases fields.len() - i,
    {
        write_format_serialize(w, &fields[i].value, to_lower_camel_case(fields[i].name.as_str()).as_str());
        assert(seq_view(fields@).take(i + 1).drop_last() =~= seq_view(fields@).take(i as int));
        i = i + 1;
    }
    assert(seq_view(fields@).take(fields.len() as int) =~= seq_view(fields@));
}

fn write_deserialize_bound(w: &mut IndentedWriter, fields: &Vec<Named<Format>>)
    ensures
        final(w)@ == sw_deserialize_bound(old(w)@, seq_view(fields@)),
{
    let mut i: usize = 0;
    while i < fields.len()
        invariant
            i <= fields.len(),
            w@ == sw_deserialize_bound(old(w)@, seq_view(fields@).take(i as int)),
        decreases fields.len() - i,
    {
        write_format_deserialize(w, &fields[i].value, to_lower_camel_case(fields[i].name.as_str()).as_str());
        assert(seq_view(fields@).take(i + 1).drop_last() =~= seq_view(fields@).take(i as int));
        i = i + 1;
    }
    assert(seq_view(fields@).take(fields.len() as int) =~= seq_view(fields@));
}

fn write_variant_serialize(w: &mut IndentedWriter, v: &Named<VariantFormat>, index: usize, lang: Swift)
    ensures
        final(w)@ == sw_variant_serialize(old(w)@, v@, index as nat, lang.encoding),
{
    v.doc.write(w, lang);
    let n = to_lower_camel_case(v.name.as_str());
    match &v.value {
        VariantFormat::Unit => {
            w.write_line(concat3("case .", n.as_str(), ":").as_str());
            w.indent();
            write_variant_index(w, index);
            w.unindent();
        },
        VariantFormat::NewType(f) => {
            w.write_line(concat3("case .", n.as_str(), "(let x):").as_str());
            w.indent();
            write_variant_index(w, index);
            write_format_serialize(w, f, "x");
            w.unindent();
        },
        VariantFormat::Tuple(fs) => {
            proof {
                lemma_formats_view(fs@);
            }
            let mut line = concat4("case .", n.as_str(), "(", names_text("let x", fs.len()).as_str());
            line.append("):");
            w.write_line(line.as_str());
            w.indent();
            write_variant_index(w, index);
            write_serialize_payload(w, fs);
            w.unindent();
        },
        VariantFormat::Struct(ns) => {
            let mut line = concat4("case .", n.as_str(), "(", let_fields_text(ns).as_str());
            line.append("):");
            w.write_line(line.as_str());
            w.indent();
            write_variant_index(w, index);
            write_serialize_bound(w, ns);
            w.unindent();
        },
    }
}

fn write_variant_deserialize(w: &mut IndentedWriter, v: &Named<VariantFormat>, index: usize, lang: Swift)
    ensures
        final(w)@ == sw_variant_deserialize(old(w)@, v@, index as nat, lang.encoding),
{
    v.doc.write(w, lang);
    let n = to_lower_camel_case(v.name.as_str());
    w.write_line(concat3("case ", usize_to_string(index).as_str(), ":").as_str());
    w.indent();
    match &v.value {
        VariantFormat::Unit => {
            pop_deserializer(w);
            w.write_line(concat("return .", n.as_str()).as_str());
        },
        VariantFormat::NewType(f) => {
            write_format_deserialize(w, f, "x");
            pop_deserializer(w);
            w.write_line(concat3("return .", n.as_str(), "(x)").as_str());
        },
        VariantFormat::Tuple(fs) => {
            proof {
                lemma_formats_view(fs@);
            }
            write_deserialize_elems(w, fs, "x");
            pop_deserializer(w);
            let mut line = concat4("return .", n.as_str(), "(", names_text("x", fs.len()).as_str());
            line.append(")");
            w.write_line(line.as_str());
        },
        VariantFormat::Struct(ns) => {
            write_deserialize_bound(w, ns);
            pop_deserializer(w);
            let mut line = concat4("return .", n.as_str(), "(", args_text(ns).as_str());
            line.append(")");
            w.write_line(line.as_str());
        },
    }
    w.unindent();
}

} // verus!

verus! {

/// A variant without its documentation.
pub open spec fn without_doc(v: NamedV<VariantFormatV>) -> NamedV<VariantFormatV> {
    NamedV { name: v.name, doc: Seq::empty(), value: v.value }
}

/// The `case` declarations of the variants.
pub open spec fn sw_variant_fields(w: WriterState, vs: Seq<NamedV<VariantFormatV>>, encoding: Encoding) -> WriterState
    decreases vs.len(),
{
    if vs.len() == 0 {
        w
    } else {
        sw_variant_field(sw_variant_fields(w, vs.drop_last(), encoding), vs.last(), encoding)
    }
}

/// The cases of the serializing `switch`, by variant position.
pub open spec fn sw_variants_serialize(w: WriterState, vs: Seq<NamedV<VariantFormatV>>, encoding: Encoding) -> WriterState
    decreases vs.len(),
{
    if vs.len() == 0 {
        w
    } else {
        sw_variant_serialize(
            sw_variants_serialize(w, vs.drop_last(), encoding),
            without_doc(vs.last()),
            (vs.len() - 1) as nat,
            encoding,
        )
    }
}

/// The cases of the deserializing `switch`, by variant position.
pub open spec fn sw_variants_deserialize(w: WriterState, vs: Seq<NamedV<VariantFormatV>>, encoding: Encoding) -> WriterState
    decreases vs.len(),
{
    if vs.len() == 0 {
        w
    } else {
        sw_variant_deserialize(
            sw_variants_deserialize(w, vs.drop_last(), encoding),
            without_doc(vs.last()),
            (vs.len() - 1) as nat,
            encoding,
        )
    }
}

/// An indirect enum with one case per variant; under an encoding it is `Hashable` and
/// `Equatable` and has the serialization methods, which switch on the variant's position.
pub open spec fn sw_enum(
    w: WriterState,
    name: Seq<char>,
    vs: Seq<NamedV<VariantFormatV>>,
    doc: Seq<Seq<char>>,
    encoding: Encoding,
) -> WriterState {
    let w = sw_doc(w, doc, encoding);
    let w = block_opened(put_str(w, "indirect public enum "@ + name + sw_conformance(encoding)));
    let w = sw_variant_fields(w, vs, encoding);
    let w = if encoding == Encoding::Json || encoding == Encoding::Bincode {
        let json = encoding == Encoding::Json;
        let w = block_opened(put_str(put_newline(w), "public func serialize<S: Serializer>(serializer: S) throws "@));
        let w = unindented(block_opened(put_str(sw_push_ser(w), "switch self "@)));
        let w = block_closed(indented(sw_variants_serialize(w, vs, encoding)));
        let w = block_closed(sw_pop_ser(w));
        let w = if json { sw_json_serialize(w) } else { sw_bincode_serialize(w) };
        let w = block_opened(put_str(
            put_newline(w),
            "public static func deserialize<D: Deserializer>(deserializer: D) throws -> "@ + name + " "@,
        ));
        let w = sw_push_deser(put_line(w, "let index = try deserializer.deserialize_variant_index()"@));
        let w = unindented(block_opened(put_str(w, "switch index "@)));
        let w = sw_variants_deserialize(w, vs, encoding);
        let w = put_line(
            w,
            "default: throw DeserializationError.invalidInput(issue: \"Unknown variant index for "@ + name + ": \\(index)\")"@,
        );
        let w = block_closed(block_closed(indented(w)));
        if json { sw_json_deserialize(w, name) } else { sw_bincode_deserialize(w, name) }
    } else {
        w
    };
    block_closed(w)
}

/// The variants of a map, in key order.
pub open spec fn variant_values(vs: Seq<(u32, NamedV<VariantFormatV>)>) -> Seq<NamedV<VariantFormatV>> {
    vs.map_values(|e: (u32, NamedV<VariantFormatV>)| e.1)
}

fn write_enum(w: &mut IndentedWriter, name: &str, variants: &VariantMap, doc: &Doc, lang: Swift)
    requires
        lang.encoding != Encoding::Bcs,
    ensures
        final(w)@ == sw_enum(old(w)@, name@, variant_values(variants@), doc@, lang.encoding),
{
    let ghost vs = variant_values(variants@);
    let encoding = lang.encoding;
    doc.write(w, lang);
    w.write_string(&concat3("indirect public enum ", name, conformance(encoding)));
    w.start_block();
    let n = variants.len();
    let ghost start = w@;
    let mut i: usize = 0;
    assert(vs.take(0) =~= Seq::<NamedV<VariantFormatV>>::empty());
    while i < n
        invariant
            i <= n == variants@.len() == vs.len(),
            vs == variant_values(variants@),
            w@ == sw_variant_fields(start, vs.take(i as int), lang.encoding),
        decreases n - i,
    {
        let (_k, v) = variants.entry(i);
        write_variant_field(w, v, lang);
        assert(vs.take(i + 1).drop_last() =~= vs.take(i as int));
        i = i + 1;
    }
    assert(vs.take(n as int) =~= vs);
    if encoding.is_json() || encoding.is_bincode() {
        let json = encoding.is_json();
        w.newline();
        w.write_str("public func serialize<S: Serializer>(serializer: S) throws ");
        w.start_block();
        push_serializer(w);
        w.write_str("switch self ");
        w.start_block();
        w.unindent();
        let ghost start = w@;
        let mut i: usize = 0;
        assert(vs.take(0) =~= Seq::<NamedV<VariantFormatV>>::empty());
        while i < n
            invariant
                i <= n == variants@.len() == vs.len(),
                vs == variant_values(variants@),
                w@ == sw_variants_serialize(start, vs.take(i as int), lang.encoding),
            decreases n - i,
        {
            let (_k, v) = variants.entry(i);
            let bare = v.without_docs();
            write_variant_serialize(w, &bare, i, lang);
            assert(vs.take(i + 1).drop_last() =~= vs.take(i as int));
            i = i + 1;
        }
        assert(vs.take(n as int) =~= vs);
        w.indent();
        w.end_block();
        pop_serializer(w);
        w.end_block();
        if json {
            write_json_serialize(w);
        } else {
            write_bincode_serialize(w);
        }
        w.newline();
        w.write_string(&concat3("public static func deserialize<D: Deserializer>(deserializer: D) throws -> ", name, " "));
        w.start_block();
        w.write_line("let index = try deserializer.deserialize_variant_index()");
        push_deserializer(w);
        w.write_str("switch index ");
        w.start_block();
        w.unindent();
        let ghost start = w@;
        let mut i: usize = 0;
        assert(vs.take(0) =~= Seq::<NamedV<VariantFormatV>>::empty());
        while i < n
            invariant
                i <= n == variants@.len() == vs.len(),
                vs == variant_values(variants@),
                w@ == sw_variants_deserialize(start, vs.take(i as int), lang.encoding),
            decreases n - i,
        {
            let (_k, v) = variants.entry(i);
            let bare = v.without_docs();
            write_variant_deserialize(w, &bare, i, lang);
            assert(vs.take(i + 1).drop_last() =~= vs.take(i as int));
            i = i + 1;
        }
        assert(vs.take(n as int) =~= vs);
        w.write_line(
            concat3(
                "default: throw DeserializationError.invalidInput(issue: \"Unknown variant index for ",
                name,
                ": \\(index)\")",
            ).as_str(),
        );
        w.indent();
        w.end_block();
        w.end_block();
        if json {
            write_json_deserialize(w, name);
        } else {
            write_bincode_deserialize(w, name);
        }
    }
    w.end_block();
}

} // verus!

verus! {

/// The elements of a tuple as fields named `prefix0`, `prefix1`, ...
pub open spec fn sw_named(s: Seq<FormatV>, prefix: Seq<char>) -> Seq<NamedV<FormatV>> {
    Seq::new(s.len(), |i: int| NamedV { name: prefix + decimal(i as nat), doc: Seq::empty(), value: s[i] })
}

/// The elements of a tuple as fields named `prefix0`, `prefix1`, ...
pub fn named(formats: &Vec<Format>, prefix: &str) -> (r: Vec<Named<Format>>)
    ensures
        seq_view(r@) == sw_named(formats_view(formats@), prefix@),
{
    proof {
        lemma_formats_view(formats@);
    }
    let mut out: Vec<Named<Format>> = Vec::new();
    let mut i: usize = 0;
    while i < formats.len()
        invariant
            i <= formats.len(),
            out.len() == i,
            formats_view(formats@) == seq_view(formats@),
            forall|j: int| 0 <= j < i ==> (#[trigger] out@[j])@ == sw_named(formats_view(formats@), prefix@)[j],
        decreases formats.len() - i,
    {
        out.push(Named::new(formats[i].clone(), concat(prefix, usize_to_string(i).as_str())));
        i = i + 1;
    }
    assert(seq_view(out@) =~= sw_named(formats_view(formats@), prefix@));
    out
}

/// A type definition: a struct for every struct shape (a newtype holding its value in
/// `value`, a tuple struct in `field0`, `field1`, ...), an enum for an enum.
pub open spec fn sw_container(w: WriterState, name: Seq<char>, c: ContainerFormatV, encoding: Encoding) -> WriterState {
    match c {
        ContainerFormatV::UnitStruct(d) => sw_struct(w, name, Seq::empty(), d, encoding),
        ContainerFormatV::NewTypeStruct(f, d) => sw_struct(
            w,
            name,
            seq![NamedV { name: "value"@, doc: Seq::empty(), value: f }],
            d,
            encoding,
        ),
        ContainerFormatV::TupleStruct(s, d) => sw_struct(w, name, sw_named(s, "field"@), d, encoding),
        ContainerFormatV::Struct(fs, d) => sw_struct(w, name, fs, d, encoding),
        ContainerFormatV::Enum(vs, d) => sw_enum(w, name, variant_values(vs), d, encoding),
    }
}

/// Writes the definition of the type `name`.
pub fn write_container(w: &mut IndentedWriter, lang: Swift, name: &QualifiedTypeName, format: &ContainerFormat)
    requires
        lang.encoding != Encoding::Bcs,
    ensures
        final(w)@ == sw_container(old(w)@, name@.name, format@, lang.encoding),
{
    let n = name.name.as_str();
    match format {
        ContainerFormat::UnitStruct(doc) => {
            let fields: Vec<Named<Format>> = Vec::new();
            assert(seq_view(fields@) =~= Seq::<NamedV<FormatV>>::empty());
            write_struct(w, n, &fields, doc, lang);
        },
        ContainerFormat::NewTypeStruct(f, doc) => {
            let fields = vec![Named::new((**f).clone(), String::from_str("value"))];
            assert(seq_view(fields@) =~= seq![NamedV { name: "value"@, doc: Seq::<Seq<char>>::empty(), value: f@ }]);
            write_struct(w, n, &fields, doc, lang);
        },
        ContainerFormat::TupleStruct(fs, doc) => {
            proof {
                lemma_formats_view(fs@);
            }
            let fields = named(fs, "field");
            write_struct(w, n, &fields, doc, lang);
        },
        ContainerFormat::Struct(fields, doc) => write_struct(w, n, fields, doc, lang),
        ContainerFormat::Enum(variants, doc) => write_enum(w, n, variants, doc, lang),
    }
}

/// The modules to import: `Serde` if `serde` holds and, for each namespace of the external
/// definitions, its name in upper camel case.
pub open spec fn import_set(serde: bool, namespaces: Seq<Seq<char>>) -> Set<Seq<char>> {
    Set::new(|x: Seq<char>| (serde && x == "Serde"@) || exists|i: int| 0 <= i < namespaces.len() && x == upper_camel_case(#[trigger] namespaces[i]))
}

/// The imports for the first `n` namespaces.
pub open spec fn imports_upto(serde: bool, namespaces: Seq<Seq<char>>, n: int) -> Set<Seq<char>> {
    Set::new(|x: Seq<char>| (serde && x == "Serde"@) || exists|i: int| 0 <= i < n && x == upper_camel_case(#[trigger] namespaces[i]))
}

pub(crate) proof fn lemma_imports_upto_step(serde: bool, namespaces: Seq<Seq<char>>, n: int)
    requires
        0 <= n < namespaces.len(),
    ensures
        imports_upto(serde, namespaces, n + 1) == imports_upto(serde, namespaces, n).insert(upper_camel_case(namespaces[n])),
{
    assert forall|x: Seq<char>| #[trigger] imports_upto(serde, namespaces, n + 1).contains(x)
        <==> imports_upto(serde, namespaces, n).insert(upper_camel_case(namespaces[n])).contains(x) by {
        if imports_upto(serde, namespaces, n + 1).contains(x) && !(serde && x == "Serde"@) {
            let j = choose|j: int| 0 <= j < n + 1 && x == upper_camel_case(#[trigger] namespaces[j]);
            if j < n {
                assert(imports_upto(serde, namespaces, n).contains(x));
            }
        }
        if imports_upto(serde, namespaces, n).contains(x) && !(serde && x == "Serde"@) {
            let j = choose|j: int| 0 <= j < n && x == upper_camel_case(#[trigger] namespaces[j]);
            assert(0 <= j < n + 1);
        }
    }
    assert(imports_upto(serde, namespaces, n + 1) =~= imports_upto(serde, namespaces, n).insert(upper_camel_case(namespaces[n])));
}

/// One `import` line per module, in order.
pub open spec fn sw_imports(w: WriterState, imports: Seq<Seq<char>>) -> WriterState
    decreases imports.len(),
{
    if imports.len() == 0 {
        w
    } else {
        put_line(sw_imports(w, imports.drop_last()), "import "@ + imports.last())
    }
}

/// The module header: the imports, sorted and without repetition.
pub open spec fn sw_module(w: WriterState, serde: bool, namespaces: Seq<Seq<char>>) -> WriterState {
    sw_imports(w, sorted_texts(import_set(serde, namespaces)))
}

/// The namespaces of the external definitions, in order.
pub open spec fn definition_namespaces(d: Seq<(Seq<char>, Seq<String>)>) -> Seq<Seq<char>> {
    d.map_values(|e: (Seq<char>, Seq<String>)| e.0)
}

impl Emitter<Swift> for Module {
    open spec fn emitted(&self, w: WriterState, lang: Swift) -> WriterState {
        sw_module(w, lang.encoding != Encoding::Plain, definition_namespaces(self.config().external_definitions@))
    }

    fn write(&self, w: &mut IndentedWriter, lang: Swift) {
        let defs = &self.config().external_definitions;
        let ghost namespaces = definition_namespaces(defs@);
        let serde = !lang.encoding.is_none();
        let mut imports: Vec<String> = Vec::new();
        proof {
            reveal_strlit("Serde");
            assert(strings_view(imports@) =~= Seq::<Seq<char>>::empty());
        }
        if serde {
            insert_sorted(&mut imports, String::from_str("Serde"));
        }
        assert(strings_view(imports@).to_set() =~= imports_upto(serde, namespaces, 0));
        let n = defs.len();
        let mut i: usize = 0;
        while i < n
            invariant
                i <= n == defs@.len() == namespaces.len(),
                namespaces == definition_namespaces(defs@),
                strictly_sorted(strings_view(imports@)),
                strings_view(imports@).to_set() == imports_upto(serde, namespaces, i as int),
            decreases n - i,
        {
            let (ns, _names) = defs.entry(i);
            let ghost before = strings_view(imports@).to_set();
            insert_sorted(&mut imports, to_upper_camel_case(ns.as_str()));
            proof {
                assert(namespaces[i as int] == ns@);
                lemma_imports_upto_step(serde, namespaces, i as int);
                assert(strings_view(imports@).to_set() =~= imports_upto(serde, namespaces, i + 1));
            }
            i = i + 1;
        }
        proof {
            assert(imports_upto(serde, namespaces, n as int) =~= import_set(serde, namespaces));
            lemma_sorted_unique(strings_view(imports@), sorted_texts(import_set(serde, namespaces)));
        }
        let mut k: usize = 0;
        let ghost start = w@;
        let ghost sorted = strings_view(imports@);
        assert(sorted.take(0) =~= Seq::<Seq<char>>::empty());
        while k < imports.len()
            invariant
                k <= imports.len(),
                sorted == strings_view(imports@),
                w@ == sw_imports(start, sorted.take(k as int)),
            decreases imports.len() - k,
        {
            w.write_line(concat("import ", imports[k].as_str()).as_str());
            assert(sorted.take(k + 1).drop_last() =~= sorted.take(k as int));
            k = k + 1;
        }
        assert(sorted.take(imports.len() as int) =~= sorted);
    }
}

} // verus!

verus! {

broadcast use {
    lemma_put_line_keeps_indentation,
    lemma_put_str_same_indentation,
    lemma_put_newline_keeps_indentation,
    lemma_indented_prefix,
    lemma_unindented_after,
};

pub broadcast proof fn lemma_sw_doc_keeps_indentation(w: WriterState, doc: Seq<Seq<char>>, encoding: Encoding)
    ensures
        same_indentation(w, #[trigger] sw_doc(w, doc, encoding)),
    decreases doc.len(),
{
    if encoding != Encoding::Bincode && doc.len() > 0 {
        lemma_sw_doc_keeps_indentation(w, doc.drop_last(), encoding);
    }
}

proof fn lemma_sw_format_serialize_balanced(w: WriterState, f: FormatV, value: Seq<char>)
    ensures
        same_indentation(w, sw_format_serialize(w, f, value)),
    decreases f,
{
    match f {
        FormatV::Option(g) => {
            let a = indented(put_line(w, "try serializeOption(value: "@ + value + ", serializer: serializer) { value, serializer in"@));
            lemma_sw_format_serialize_balanced(a, *g, "value"@);
        },
        FormatV::Sequence(g) => {
            let a = indented(put_line(w, "try serializeArray(value: "@ + value + ", serializer: serializer) { item, serializer in"@));
            lemma_sw_format_serialize_balanced(a, *g, "item"@);
        },
        FormatV::SetOf(g) => {
            let a = indented(put_line(w, "try serializeSet(value: "@ + value + ", serializer: serializer) { item, serializer in"@));
            lemma_sw_format_serialize_balanced(a, *g, "item"@);
        },
        FormatV::MapOf { key, value: v } => {
            let a = indented(
                put_line(w, "try serializeMap(value: "@ + value + ", serializer: serializer) { key, value, serializer in"@),
            );
            lemma_sw_format_serialize_balanced(a, *key, "key"@);
            lemma_sw_format_serialize_balanced(sw_format_serialize(a, *key, "key"@), *v, "value"@);
        },
        FormatV::Tuple(s) => lemma_sw_serialize_elems_balanced(w, s, value),
        FormatV::TupleArray { content, .. } => {
            let a = indented(
                put_line(w, "try serializeTupleArray(value: "@ + value + ", serializer: serializer) { item, serializer in"@),
            );
            lemma_sw_format_serialize_balanced(a, *content, "item"@);
        },
        _ => {},
    }
}

proof fn lemma_sw_serialize_elems_balanced(w: WriterState, s: Seq<FormatV>, value: Seq<char>)
    ensures
        same_indentation(w, sw_serialize_elems(w, s, value)),
    decreases s,
{
    if s.len() > 0 {
        lemma_sw_serialize_elems_balanced(w, s.drop_last(), value);
        assert(decreases_to!(s => s.last()));
        lemma_sw_format_serialize_balanced(
            sw_serialize_elems(w, s.drop_last(), value),
            s.last(),
            value + ".field"@ + decimal((s.len() - 1) as nat),
        );
    }
}

proof fn lemma_sw_format_deserialize_balanced(w: WriterState, f: FormatV, var: Seq<char>)
    ensures
        same_indentation(w, sw_format_deserialize(w, f, var)),
    decreases f, 1nat,
{
    lemma_sw_deserialize_expr_balanced(put_str(w, "let "@ + var + " = "@), f);
    if let FormatV::Tuple(s) = f {
        lemma_sw_deserialize_elems_balanced(w, s, var + "Field"@);
    }
}

proof fn lemma_sw_deserialize_elems_balanced(w: WriterState, s: Seq<FormatV>, prefix: Seq<char>)
    ensures
        same_indentation(w, sw_deserialize_elems(w, s, prefix)),
    decreases s, 2nat,
{
    if s.len() > 0 {
        lemma_sw_deserialize_elems_balanced(w, s.drop_last(), prefix);
        assert(decreases_to!(s => s.last()));
        lemma_sw_format_deserialize_balanced(
            sw_deserialize_elems(w, s.drop_last(), prefix),
            s.last(),
            prefix + decimal((s.len() - 1) as nat),
        );
    }
}

proof fn lemma_sw_deserialize_expr_balanced(w: WriterState, f: FormatV)
    ensures
        same_indentation(w, sw_deserialize_expr(w, f)),
    decreases f, 0nat,
{
    match f {
        FormatV::Option(g) => {
            let a = indented(put_line(w, "try deserializeOption(deserializer: deserializer) { deserializer in"@));
            lemma_sw_deserialize_expr_balanced(a, *g);
        },
        FormatV::Sequence(g) => {
            let a = indented(put_line(w, "try deserializeArray(deserializer: deserializer) { deserializer in"@));
            lemma_sw_deserialize_expr_balanced(a, *g);
        },
        FormatV::SetOf(g) => {
            let a = indented(put_line(w, "try deserializeSet(deserializer: deserializer) { deserializer in"@));
            lemma_sw_deserialize_expr_balanced(a, *g);
        },
        FormatV::MapOf { key, value } => {
            let a = indented(put_line(w, "try deserializeMap(deserializer: deserializer) { deserializer in"@));
            lemma_sw_format_deserialize_balanced(a, *key, "key"@);
            lemma_sw_format_deserialize_balanced(sw_format_deserialize(a, *key, "key"@), *value, "value"@);
        },
        FormatV::Tuple(s) => {
            if s.len() == 1 {
                assert(decreases_to!(s => s[0]));
                lemma_sw_deserialize_expr_balanced(w, s[0]);
            } else {
                lemma_sw_deserialize_elems_balanced(w, s, "field"@);
            }
        },
        FormatV::TupleArray { content, size } => {
            let a = indented(
                put_line(
                    w,
                    "try deserializeTupleArray(deserializer: deserializer, size: "@ + decimal(size as nat) + ") { deserializer in"@,
                ),
            );
            lemma_sw_deserialize_expr_balanced(a, *content);
        },
        _ => {},
    }
}

proof fn lemma_sw_field_serialize_balanced(w: WriterState, name: Seq<char>, value: FormatV, receiver: Seq<char>, encoding: Encoding)
    ensures
        same_indentation(w, sw_field_serialize(w, name, value, receiver, encoding)),
    decreases value, 1nat,
{
    let n = lower_camel_case(name);
    lemma_sw_format_serialize_balanced(w, value, receiver + "."@ + n);
    if let FormatV::Tuple(s) = value {
        lemma_sw_tuple_serialize_balanced(sw_push_ser(w), s, n, encoding);
    }
}

proof fn lemma_sw_tuple_serialize_balanced(w: WriterState, s: Seq<FormatV>, receiver: Seq<char>, encoding: Encoding)
    ensures
        same_indentation(w, sw_tuple_serialize(w, s, receiver, encoding)),
    decreases s, 0nat,
{
    if s.len() > 0 {
        lemma_sw_tuple_serialize_balanced(w, s.drop_last(), receiver, encoding);
        assert(decreases_to!(s => s.last()));
        lemma_sw_field_serialize_balanced(
            sw_tuple_serialize(w, s.drop_last(), receiver, encoding),
            decimal((s.len() - 1) as nat),
            s.last(),
            receiver,
            encoding,
        );
    }
}

proof fn lemma_sw_field_deserialize_balanced(w: WriterState, name: Seq<char>, value: FormatV, encoding: Encoding)
    ensures
        same_indentation(w, sw_field_deserialize(w, name, value, encoding)),
    decreases value, 1nat,
{
    let n = lower_camel_case(name);
    lemma_sw_format_deserialize_balanced(w, value, n);
    if let FormatV::Tuple(s) = value {
        lemma_sw_tuple_deserialize_balanced(sw_push_deser(w), s, n, encoding);
    }
}

proof fn lemma_sw_tuple_deserialize_balanced(w: WriterState, s: Seq<FormatV>, prefix: Seq<char>, encoding: Encoding)
    ensures
        same_indentation(w, sw_tuple_deserialize(w, s, prefix, encoding)),
    decreases s, 0nat,
{
    if s.len() > 0 {
        lemma_sw_tuple_deserialize_balanced(w, s.drop_last(), prefix, encoding);
        assert(decreases_to!(s => s.last()));
        lemma_sw_field_deserialize_balanced(
            sw_tuple_deserialize(w, s.drop_last(), prefix, encoding),
            prefix + decimal((s.len() - 1) as nat),
            s.last(),
            encoding,
        );
    }
}

proof fn lemma_sw_fields_balanced(w: WriterState, fields: Seq<NamedV<FormatV>>, encoding: Encoding)
    ensures
        same_indentation(w, sw_fields(w, fields, encoding)),
        same_indentation(w, sw_assignments(w, fields)),
        same_indentation(w, sw_fields_serialize(w, fields, encoding)),
        same_indentation(w, sw_fields_deserialize(w, fields, encoding)),
        same_indentation(w, sw_serialize_bound(w, fields)),
        same_indentation(w, sw_deserialize_bound(w, fields)),
    decreases fields.len(),
{
    broadcast use lemma_sw_doc_keeps_indentation;
    if fields.len() > 0 {
        let rest = fields.drop_last();
        let f = fields.last();
        lemma_sw_fields_balanced(w, rest, encoding);
        lemma_sw_field_serialize_balanced(sw_fields_serialize(w, rest, encoding), f.name, f.value, "self"@, encoding);
        lemma_sw_field_deserialize_balanced(sw_fields_deserialize(w, rest, encoding), f.name, f.value, encoding);
        lemma_sw_format_serialize_balanced(sw_serialize_bound(w, rest), f.value, lower_camel_case(f.name));
        lemma_sw_format_deserialize_balanced(sw_deserialize_bound(w, rest), f.value, lower_camel_case(f.name));
    }
}

proof fn lemma_sw_payload_balanced(w: WriterState, s: Seq<FormatV>)
    ensures
        same_indentation(w, sw_serialize_payload(w, s)),
    decreases s.len(),
{
    if s.len() > 0 {
        lemma_sw_payload_balanced(w, s.drop_last());
        lemma_sw_format_serialize_balanced(sw_serialize_payload(w, s.drop_last()), s.last(), "x"@ + decimal((s.len() - 1) as nat));
    }
}

proof fn lemma_sw_variant_balanced(w: WriterState, v: NamedV<VariantFormatV>, index: nat, encoding: Encoding)
    ensures
        same_indentation(w, sw_variant_field(w, v, encoding)),
        same_indentation(w, sw_variant_serialize(w, v, index, encoding)),
        same_indentation(w, sw_variant_deserialize(w, v, index, encoding)),
{
    broadcast use lemma_sw_doc_keeps_indentation;
    let d = sw_doc(w, v.doc, encoding);
    let n = lower_camel_case(v.name);
    let inner = indented(put_line(d, "case "@ + decimal(index) + ":"@));
    match v.value {
        VariantFormatV::Unit => {},
        VariantFormatV::NewType(f) => {
            lemma_sw_format_serialize_balanced(
                sw_variant_index(indented(put_line(d, "case ."@ + n + "(let x):"@)), index),
                f,
                "x"@,
            );
            lemma_sw_format_deserialize_balanced(inner, f, "x"@);
        },
        VariantFormatV::Tuple(s) => {
            lemma_sw_payload_balanced(
                sw_variant_index(indented(put_line(d, "case ."@ + n + "("@ + sw_names("let x"@, s.len()) + "):"@)), index),
                s,
            );
            lemma_sw_deserialize_elems_balanced(inner, s, "x"@);
        },
        VariantFormatV::Struct(fs) => {
            lemma_sw_fields_balanced(
                sw_variant_index(indented(put_line(d, "case ."@ + n + "("@ + sw_let_fields(fs) + "):"@)), index),
                fs,
                encoding,
            );
            lemma_sw_fields_balanced(inner, fs, encoding);
        },
    }
}

proof fn lemma_sw_variants_balanced(w: WriterState, vs: Seq<NamedV<VariantFormatV>>, encoding: Encoding)
    ensures
        same_indentation(w, sw_variant_fields(w, vs, encoding)),
        same_indentation(w, sw_variants_serialize(w, vs, encoding)),
        same_indentation(w, sw_variants_deserialize(w, vs, encoding)),
    decreases vs.len(),
{
    if vs.len() > 0 {
        let rest = vs.drop_last();
        let i = (vs.len() - 1) as nat;
        lemma_sw_variants_balanced(w, rest, encoding);
        lemma_sw_variant_balanced(sw_variant_fields(w, rest, encoding), vs.last(), i, encoding);
        lemma_sw_variant_balanced(sw_variants_serialize(w, rest, encoding), without_doc(vs.last()), i, encoding);
        lemma_sw_variant_balanced(sw_variants_deserialize(w, rest, encoding), without_doc(vs.last()), i, encoding);
    }
}

proof fn lemma_sw_struct_balanced(w: WriterState, name: Seq<char>, fields: Seq<NamedV<FormatV>>, doc: Seq<Seq<char>>, encoding: Encoding)
    ensures
        same_indentation(w, sw_struct(w, name, fields, doc, encoding)),
{
    broadcast use lemma_sw_doc_keeps_indentation;
    let w1 = block_opened(put_str(sw_doc(w, doc, encoding), "public struct "@ + name + sw_conformance(encoding)));
    lemma_sw_fields_balanced(w1, fields, encoding);
    let w2 = sw_fields(w1, fields, encoding);
    let w3 = if fields.len() > 0 || encoding == Encoding::Bincode { put_newline(w2) } else { w2 };
    let w4 = put_str(w3, "public init("@ + sw_params(fields, encoding) + ") "@);
    lemma_sw_fields_balanced(block_opened(w4), fields, encoding);
    let w5 = block_closed(sw_assignments(block_opened(w4), fields));
    let w6 = block_opened(put_str(put_newline(w5), "public func serialize<S: Serializer>(serializer: S) throws "@));
    lemma_sw_fields_balanced(sw_push_ser(w6), fields, encoding);
    let w7 = block_closed(sw_pop_ser(sw_fields_serialize(sw_push_ser(w6), fields, encoding)));
    let w8 = if encoding == Encoding::Json { sw_json_serialize(w7) } else { sw_bincode_serialize(w7) };
    let w9 = block_opened(put_str(
        put_newline(w8),
        "public static func deserialize<D: Deserializer>(deserializer: D) throws -> "@ + name + " "@,
    ));
    lemma_sw_fields_balanced(sw_push_deser(w9), fields, encoding);
}

proof fn lemma_sw_enum_balanced(w: WriterState, name: Seq<char>, vs: Seq<NamedV<VariantFormatV>>, doc: Seq<Seq<char>>, encoding: Encoding)
    ensures
        same_indentation(w, sw_enum(w, name, vs, doc, encoding)),
{
    broadcast use lemma_sw_doc_keeps_indentation;
    let w1 = block_opened(put_str(sw_doc(w, doc, encoding), "indirect public enum "@ + name + sw_conformance(encoding)));
    lemma_sw_variants_balanced(w1, vs, encoding);
    let w2 = sw_variant_fields(w1, vs, encoding);
    let w3 = block_opened(put_str(put_newline(w2), "public func serialize<S: Serializer>(serializer: S) throws "@));
    let w4 = unindented(block_opened(put_str(sw_push_ser(w3), "switch self "@)));
    lemma_sw_variants_balanced(w4, vs, encoding);
    let w5 = block_closed(sw_pop_ser(block_closed(indented(sw_variants_serialize(w4, vs, encoding)))));
    let w6 = if encoding == Encoding::Json { sw_json_serialize(w5) } else { sw_bincode_serialize(w5) };
    let w7 = block_opened(put_str(
        put_newline(w6),
        "public static func deserialize<D: Deserializer>(deserializer: D) throws -> "@ + name + " "@,
    ));
    let w8 = sw_push_deser(put_line(w7, "let index = try deserializer.deserialize_variant_index()"@));
    let w9 = unindented(block_opened(put_str(w8, "switch index "@)));
    lemma_sw_variants_balanced(w9, vs, encoding);
}

/// Every block that a type definition opens, it closes: writing it leaves the indentation
/// as it found it.
pub proof fn lemma_sw_container_balanced(w: WriterState, name: Seq<char>, c: ContainerFormatV, encoding: Encoding)
    ensures
        same_indentation(w, sw_container(w, name, c, encoding)),
{
    match c {
        ContainerFormatV::UnitStruct(d) => lemma_sw_struct_balanced(w, name, Seq::empty(), d, encoding),
        ContainerFormatV::NewTypeStruct(f, d) => lemma_sw_struct_balanced(
            w,
            name,
            seq![NamedV { name: "value"@, doc: Seq::empty(), value: f }],
            d,
            encoding,
        ),
        ContainerFormatV::TupleStruct(s, d) => lemma_sw_struct_balanced(w, name, sw_named(s, "field"@), d, encoding),
        ContainerFormatV::Struct(fs, d) => lemma_sw_struct_balanced(w, name, fs, d, encoding),
        ContainerFormatV::Enum(vs, d) => lemma_sw_enum_balanced(w, name, variant_values(vs), d, encoding),
    }
}

} // verus!

verus! {

/// The declaration of a stored property: `public var name: Type`.
pub open spec fn sw_field_decl(n: NamedV<FormatV>, encoding: Encoding) -> Seq<char> {
    "public var "@ + lower_camel_case(n.name) + ": "@ + sw_type(n.value, encoding != Encoding::Plain)
}

/// The declaration lines of the fields, one per field and in field order, each after
/// the indentation `ind`.
pub open spec fn field_decl_lines(ind: Seq<char>, fields: Seq<NamedV<FormatV>>, encoding: Encoding) -> Seq<char>
    decreases fields.len(),
{
    if fields.len() == 0 {
        Seq::empty()
    } else {
        field_decl_lines(ind, fields.drop_last(), encoding) + ind + sw_field_decl(fields.last(), encoding) + seq!['\n']
    }
}

/// Whether no field has documentation and no declaration runs over a line.
pub open spec fn plain_fields(fields: Seq<NamedV<FormatV>>, encoding: Encoding) -> bool {
    forall|i: int| 0 <= i < fields.len() ==> (#[trigger] fields[i]).doc.len() == 0 && !sw_field_decl(fields[i], encoding).contains('\n')
}

/// Undocumented stored properties are written one per line, in field order, each at the
/// writer's indentation.
pub proof fn lemma_sw_fields_lines(w: WriterState, fields: Seq<NamedV<FormatV>>, encoding: Encoding)
    requires
        w.at_line_start,
        plain_fields(fields, encoding),
    ensures
        sw_fields(w, fields, encoding) == (WriterState { text: w.text + field_decl_lines(w.indentation, fields, encoding), ..w }),
    decreases fields.len(),
{
    if fields.len() == 0 {
        assert(w.text + field_decl_lines(w.indentation, fields, encoding) =~= w.text);
    } else {
        let rest = fields.drop_last();
        assert(plain_fields(rest, encoding)) by {
            assert forall|i: int| 0 <= i < rest.len() implies (#[trigger] rest[i]).doc.len() == 0 && !sw_field_decl(rest[i], encoding).contains('\n') by {
                assert(rest[i] == fields[i]);
            }
        }
        lemma_sw_fields_lines(w, rest, encoding);
        let v = sw_fields(w, rest, encoding);
        let f = fields.last();
        assert(f == fields[fields.len() - 1]);
        assert(sw_doc(v, f.doc, encoding) == v);
        reveal_strlit("public var ");
        assert(sw_field_decl(f, encoding).len() > 0);
        lemma_put_line_at_start(v, sw_field_decl(f, encoding));
        assert(v.text + v.indentation + sw_field_decl(f, encoding) + seq!['\n'] =~= w.text + field_decl_lines(w.indentation, fields, encoding));
    }
}

/// A struct without documentation, written at the start of a line: its declaration line,
/// then its stored properties one per line in field order, one level deeper than the
/// declaration; the initializer and the rest follow from there.
pub proof fn lemma_sw_struct_layout(w: WriterState, name: Seq<char>, fields: Seq<NamedV<FormatV>>, encoding: Encoding)
    requires
        w.at_line_start,
        !name.contains('\n'),
        plain_fields(fields, encoding),
    ensures
        ({
            let header = block_opened(put_str(sw_doc(w, Seq::empty(), encoding), "public struct "@ + name + sw_conformance(encoding)));
            &&& header.text == w.text + w.indentation + "public struct "@ + name + sw_conformance(encoding) + "{\n"@
            &&& header.indentation == w.indentation + w.unit
            &&& sw_fields(header, fields, encoding).text == header.text + field_decl_lines(w.indentation + w.unit, fields, encoding)
        }),
{
    reveal_strlit("public struct ");
    reveal_strlit(": Hashable, Equatable ");
    reveal_strlit(" ");
    reveal_strlit("{\n");
    let p1 = "public struct "@;
    let p2 = sw_conformance(encoding);
    assert(!p2.contains('\n'));
    let h = p1 + name + p2;
    let h2 = h + seq!['{'];
    assert(sw_doc(w, Seq::<Seq<char>>::empty(), encoding) == w);
    assert(!h2.contains('\n')) by {
        if h2.contains('\n') {
            let k = choose|k: int| 0 <= k < h2.len() && h2[k] == '\n';
            if k < p1.len() {
                assert(h2[k] == p1[k]);
            } else if k < p1.len() + name.len() {
                assert(h2[k] == name[k - p1.len()]);
            } else if k < h.len() {
                assert(h2[k] == p2[k - p1.len() - name.len()]);
            }
        }
    }
    lemma_put_line_at_start(w, h2);
    lemma_put_str_concat(w, h, seq!['{', '\n']);
    assert(seq!['{'].push('\n') =~= seq!['{', '\n']);
    assert(h2.push('\n') =~= h + seq!['{', '\n']);
    assert(put_line(put_str(w, h), seq!['{']) == put_line(w, h2));
    let header = block_opened(put_str(w, h));
    assert(w.text + w.indentation + h2 + seq!['\n'] =~= w.text + w.indentation + "public struct "@ + name + sw_conformance(encoding) + "{\n"@);
    lemma_sw_fields_lines(header, fields, encoding);
}

/// The assignment of a field to itself in an initializer: `self.name = name`.
pub open spec fn sw_assignment(n: NamedV<FormatV>) -> Seq<char> {
    "self."@ + lower_camel_case(n.name) + " = "@ + lower_camel_case(n.name)
}

/// The assignment lines of an initializer, one per field and in field order, each after
/// the indentation `ind`.
pub open spec fn assignment_lines(ind: Seq<char>, fields: Seq<NamedV<FormatV>>) -> Seq<char>
    decreases fields.len(),
{
    if fields.len() == 0 {
        Seq::empty()
    } else {
        assignment_lines(ind, fields.drop_last()) + ind + sw_assignment(fields.last()) + seq!['\n']
    }
}

/// Whether no field name runs over a line.
pub open spec fn one_line_names(fields: Seq<NamedV<FormatV>>) -> bool {
    forall|i: int| 0 <= i < fields.len() ==> !lower_camel_case(#[trigger] fields[i].name).contains('\n')
}

proof fn lemma_sw_assignments_lines(w: WriterState, fields: Seq<NamedV<FormatV>>)
    requires
        w.at_line_start,
        one_line_names(fields),
    ensures
        sw_assignments(w, fields) == (WriterState { text: w.text + assignment_lines(w.indentation, fields), ..w }),
    decreases fields.len(),
{
    if fields.len() == 0 {
        assert(w.text + assignment_lines(w.indentation, fields) =~= w.text);
    } else {
        let rest = fields.drop_last();
        assert(one_line_names(rest)) by {
            assert forall|i: int| 0 <= i < rest.len() implies !lower_camel_case(#[trigger] rest[i].name).contains('\n') by {
                assert(rest[i] == fields[i]);
            }
        }
        lemma_sw_assignments_lines(w, rest);
        let v = sw_assignments(w, rest);
        let f = fields.last();
        assert(f == fields[fields.len() - 1]);
        let n = lower_camel_case(f.name);
        reveal_strlit("self.");
        reveal_strlit(" = ");
        lemma_concat_lacks("self."@, n, '\n');
        lemma_concat_lacks("self."@ + n, " = "@, '\n');
        lemma_concat_lacks("self."@ + n + " = "@, n, '\n');
        assert(sw_assignment(f).len() > 0);
        lemma_put_line_at_start(v, sw_assignment(f));
        assert(v.text + v.indentation + sw_assignment(f) + seq!['\n'] =~= w.text + assignment_lines(w.indentation, fields));
    }
}

/// Without an encoding, an undocumented struct written at the start of a line is exactly:
/// its declaration line; one stored property per field, in field order, one level deeper;
/// a blank line if there are fields; the memberwise initializer, whose body assigns each
/// field in field order, one level deeper again; and the closing braces. The writer ends
/// at the indentation where it started.
pub proof fn lemma_sw_plain_struct_text(w: WriterState, name: Seq<char>, fields: Seq<NamedV<FormatV>>)
    requires
        w.at_line_start,
        !name.contains('\n'),
        plain_fields(fields, Encoding::Plain),
        one_line_names(fields),
        !sw_params(fields, Encoding::Plain).contains('\n'),
    ensures
        ({
            let i = w.indentation;
            let j = w.indentation + w.unit;
            let v = sw_struct(w, name, fields, Seq::empty(), Encoding::Plain);
            &&& v.text == w.text + i + "public struct "@ + name + " {\n"@ + field_decl_lines(j, fields, Encoding::Plain) + (if fields.len() > 0 {
                seq!['\n']
            } else {
                Seq::empty()
            }) + j + "public init("@ + sw_params(fields, Encoding::Plain) + ") {\n"@ + assignment_lines(j + w.unit, fields) + j + "}\n"@ + i
                + "}\n"@
            &&& v.indentation == i
            &&& v.unit == w.unit
            &&& v.at_line_start
        }),
{
    let e = Encoding::Plain;
    let i = w.indentation;
    let u = w.unit;
    let j = i + u;
    let nl = if fields.len() > 0 { seq!['\n'] } else { Seq::<char>::empty() };
    reveal_strlit(" ");
    reveal_strlit(" {\n");
    reveal_strlit("{\n");
    reveal_strlit("public init(");
    reveal_strlit(") ");
    reveal_strlit(") {\n");
    reveal_strlit("}\n");
    lemma_sw_struct_layout(w, name, fields, e);
    assert(sw_doc(w, Seq::<Seq<char>>::empty(), e) == w);
    let header = block_opened(put_str(w, "public struct "@ + name + sw_conformance(e)));
    let t1 = w.text + i + "public struct "@ + name + " {\n"@;
    assert(header.text == t1) by {
        assert("public struct "@ + name + sw_conformance(e) + "{\n"@ =~= "public struct "@ + name + " {\n"@);
        assert(w.text + i + ("public struct "@ + name + sw_conformance(e) + "{\n"@) =~= w.text + i + "public struct "@ + name + sw_conformance(e) + "{\n"@);
        assert(w.text + i + ("public struct "@ + name + " {\n"@) =~= t1);
    }
    lemma_sw_fields_lines(header, fields, e);
    let w2 = sw_fields(header, fields, e);
    let t2 = t1 + field_decl_lines(j, fields, e) + nl;
    let w3 = if fields.len() > 0 { put_newline(w2) } else { w2 };
    assert(w3 == (WriterState { text: t2, indentation: j, unit: u, at_line_start: true })) by {
        if fields.len() == 0 {
            assert(t2 =~= t1 + field_decl_lines(j, fields, e));
        }
    }
    let p = "public init("@ + sw_params(fields, e) + ") "@;
    lemma_concat_lacks("public init("@, sw_params(fields, e), '\n');
    lemma_concat_lacks("public init("@ + sw_params(fields, e), ") "@, '\n');
    lemma_concat_lacks(p, seq!['{'], '\n');
    lemma_put_str_concat(w3, p, seq!['{', '\n']);
    assert((p + seq!['{']).push('\n') =~= p + seq!['{', '\n']);
    assert(seq!['{'].push('\n') =~= seq!['{', '\n']);
    lemma_put_line_at_start(w3, p + seq!['{']);
    let w4 = put_str(w3, p);
    assert(put_line(w4, seq!['{']) == put_line(w3, p + seq!['{']));
    let w5 = block_opened(w4);
    let t3 = t2 + j + "public init("@ + sw_params(fields, e) + ") {\n"@;
    assert(w5 == (WriterState { text: t3, indentation: j + u, unit: u, at_line_start: true })) by {
        assert(t2 + j + (p + seq!['{']) + seq!['\n'] =~= t3);
    }
    lemma_sw_assignments_lines(w5, fields);
    let w6 = sw_assignments(w5, fields);
    let t4 = t3 + assignment_lines(j + u, fields);
    assert((j + u).take(j.len() as int) =~= j);
    assert(unindented(w6) == (WriterState { text: t4, indentation: j, unit: u, at_line_start: true }));
    lemma_put_line_at_start(unindented(w6), seq!['}']);
    let w7 = block_closed(w6);
    let t5 = t4 + j + "}\n"@;
    assert(w7 == (WriterState { text: t5, indentation: j, unit: u, at_line_start: true })) by {
        assert(t4 + j + seq!['}'] + seq!['\n'] =~= t5);
    }
    assert(j.take(i.len() as int) =~= i);
    assert(unindented(w7) == (WriterState { text: t5, indentation: i, unit: u, at_line_start: true }));
    lemma_put_line_at_start(unindented(w7), seq!['}']);
    let w8 = block_closed(w7);
    assert(w8.text == t5 + i + "}\n"@) by {
        assert(t5 + i + seq!['}'] + seq!['\n'] =~= t5 + i + "}\n"@);
    }
    lemma_sw_struct_unfold_plain(w, name, fields, w7);
}

/// Without an encoding, a struct closes right after its initializer.
proof fn lemma_sw_struct_unfold_plain(w: WriterState, name: Seq<char>, fields: Seq<NamedV<FormatV>>, w7: WriterState)
    requires
        w7 == ({
            let e = Encoding::Plain;
            let w1 = sw_fields(block_opened(put_str(sw_doc(w, Seq::empty(), e), "public struct "@ + name + sw_conformance(e))), fields, e);
            let w3 = if fields.len() > 0 { put_newline(w1) } else { w1 };
            let w4 = put_str(w3, "public init("@ + sw_params(fields, e) + ") "@);
            block_closed(sw_assignments(block_opened(w4), fields))
        }),
    ensures
        sw_struct(w, name, fields, Seq::empty(), Encoding::Plain) == block_closed(w7),
{
}

} // verus!
