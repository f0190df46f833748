//! Kotlin emitter: type definitions as data classes, data objects, enum classes and sealed
//! interfaces, with optional kotlinx.serialization annotations (JSON) or Bincode methods.
use vstd::prelude::*;

use crate::case::{to_uppercase, uppercase};
use crate::generation::common::{format_is_primitive, is_primitive, primitive_name, primitive_name_str};
use crate::generation::config::Encoding;
use crate::generation::indent::{block_closed, block_opened, decimal, indented, lemma_decimal_one_line, lemma_indented_prefix, lemma_put_line_at_start, lemma_put_line_ends_line, lemma_put_str_concat, lemma_put_str_grows, lemma_put_str_single, lemma_text_grows_trans, text_grows, lemma_put_line_keeps_indentation, lemma_put_newline_keeps_indentation, lemma_put_str_same_indentation, lemma_unindented_after, put_line, put_newline, put_str, same_indentation, unindented, usize_to_string, IndentedWriter, WriterState};

use crate::generation::module::Module;
use crate::generation::Emitter;
use crate::reflection::format::{formats_view, lemma_formats_view, seq_view, ContainerFormat, ContainerFormatV, Doc, Format, FormatV, Named, NamedV, Namespace, NamespaceV, QualifiedTypeName, QualifiedTypeNameV, VariantFormat, VariantFormatV, VariantMap};
use crate::util::text::{concat3, concat4, lemma_concat_lacks};

verus! {

/// The Kotlin language tag.
#[derive(Debug, Clone, Copy)]
pub struct Kotlin;

/// The name of the generic class that holds a tuple of `n` elements.
pub open spec fn tuple_class(n: nat) -> Seq<char> {
    if n == 2 {
        "Pair"@
    } else if n == 3 {
        "Triple"@
    } else {
        "NTuple"@ + decimal(n)
    }
}

/// How a named type is referred to: by its name, after its namespace if it has one.
pub open spec fn kt_type_name(q: QualifiedTypeNameV) -> Seq<char> {
    match q.namespace {
        NamespaceV::Root => q.name,
        NamespaceV::Named(ns) => ns + "."@ + q.name,
    }
}

/// How a named type is referred to: by its name, after its namespace if it has one.
pub fn kotlin_type_name(q: &QualifiedTypeName) -> (r: String)
    ensures
        r@ == kt_type_name(q@),
{
    match &q.namespace {
        Namespace::Root => q.name.clone(),
        Namespace::Named(ns) => concat3(ns.as_str(), ".", q.name.as_str()),
    }
}

/// The Kotlin type expression for `f`.
pub open spec fn kt_type(f: FormatV) -> Seq<char>
    decreases f,
{
    match f {
        FormatV::TypeName(q) => kt_type_name(q),
        FormatV::Unit => "Unit"@,
        FormatV::Bool => "Boolean"@,
        FormatV::I8 => "Byte"@,
        FormatV::I16 => "Short"@,
        FormatV::I32 => "Int"@,
        FormatV::I64 => "Long"@,
        FormatV::U8 => "UByte"@,
        FormatV::U16 => "UShort"@,
        FormatV::U32 => "UInt"@,
        FormatV::U64 => "ULong"@,
        FormatV::I128 | FormatV::U128 => "BigInteger"@,
        FormatV::F32 => "Float"@,
        FormatV::F64 => "Double"@,
        FormatV::Char | FormatV::Str => "String"@,
        FormatV::Bytes => "ByteArray"@,
        FormatV::Option(g) => kt_type(*g) + "?"@,
        FormatV::Sequence(g) => "List<"@ + kt_type(*g) + ">"@,
        FormatV::SetOf(g) => "Set<"@ + kt_type(*g) + ">"@,
        FormatV::MapOf { key, value } => "Map<"@ + kt_type(*key) + ", "@ + kt_type(*value) + ">"@,
        FormatV::Tuple(s) => if s.len() == 0 {
            "Unit"@
        } else if s.len() == 1 {
            kt_type_list(s)
        } else {
            tuple_class(s.len()) + "<"@ + kt_type_list(s) + ">"@
        },
        FormatV::TupleArray { content, size: _ } => "List<"@ + kt_type(*content) + ">"@,
    }
}

/// The Kotlin types of `s`, separated by `", "`.
pub open spec fn kt_type_list(s: Seq<FormatV>) -> Seq<char>
    decreases s,
{
    if s.len() == 0 {
        Seq::empty()
    } else if s.len() == 1 {
        kt_type(s.last())
    } else {
        kt_type_list(s.drop_last()) + ", "@ + kt_type(s.last())
    }
}

/// The Kotlin type expression for a format.
pub fn kotlin_type(f: &Format) -> (r: String)
    ensures
        r@ == kt_type(f@),
    decreases f, 0nat,
{
    match f {
        Format::TypeName(q) => kotlin_type_name(q),
        Format::Unit => String::from_str("Unit"),
        Format::Bool => String::from_str("Boolean"),
        Format::I8 => String::from_str("Byte"),
        Format::I16 => String::from_str("Short"),
        Format::I32 => String::from_str("Int"),
        Format::I64 => String::from_str("Long"),
        Format::U8 => String::from_str("UByte"),
        Format::U16 => String::from_str("UShort"),
        Format::U32 => String::from_str("UInt"),
        Format::U64 => String::from_str("ULong"),
        Format::I128 | Format::U128 => String::from_str("BigInteger"),
        Format::F32 => String::from_str("Float"),
        Format::F64 => String::from_str("Double"),
        Format::Char | Format::Str => String::from_str("String"),
        Format::Bytes => String::from_str("ByteArray"),
        Format::Option(g) => {
            let mut r = kotlin_type(g);
            r.append("?");
            r
        },
        Format::Sequence(g) => {
            let mut r = String::from_str("List<");
            r.append(kotlin_type(g).as_str());
            r.append(">");
            r
        },
        Format::SetOf(g) => {
            let mut r = String::from_str("Set<");
            r.append(kotlin_type(g).as_str());
            r.append(">");
            r
        },
        Format::MapOf { key, value } => {
            let mut r = String::from_str("Map<");
            r.append(kotlin_type(key).as_str());
            r.append(", ");
            r.append(kotlin_type(value).as_str());
            r.append(">");
            r
        },
        Format::Tuple(v) => {
            proof {
                lemma_formats_view(v@);
            }
            let len = v.len();
            if len == 0 {
                String::from_str("Unit")
            } else if len == 1 {
                kotlin_type_list(v)
            } else {
                let mut r = tuple_class_name(len);
                r.append("<");
                r.append(kotlin_type_list(v).as_str());
                r.append(">");
                r
            }
        },
        Format::TupleArray { content, size: _ } => {
            let mut r = String::from_str("List<");
            r.append(kotlin_type(content).as_str());
            r.append(">");
            r
        },
    }
}

/// The name of the generic class that holds a tuple of `n` elements.
pub fn tuple_class_name(n: usize) -> (r: String)
    ensures
        r@ == tuple_class(n as nat),
{
    if n == 2 {
        String::from_str("Pair")
    } else if n == 3 {
        String::from_str("Triple")
    } else {
        let mut r = String::from_str("NTuple");
        r.append(usize_to_string(n).as_str());
        r
    }
}

/// The Kotlin types of a vector of formats, separated by `", "`.
pub fn kotlin_type_list(v: &Vec<Format>) -> (r: String)
    ensures
        r@ == kt_type_list(formats_view(v@)),
    decreases v@, 1nat,
{
    let mut out = String::new();
    let mut i: usize = 0;
    proof {
        assert(v@.take(0) =~= Seq::<Format>::empty());
    }
    while i < v.len()
        invariant
            i <= v.len(),
            out@ == kt_type_list(formats_view(v@.take(i as int))),
        decreases v.len() - i,
    {
        proof {
            assert(decreases_to!(v@ => v@[i as int]));
            assert(v@.take(i + 1).drop_last() =~= v@.take(i as int));
        }
        let ghost before = out@;
        if i > 0 {
            out.append(", ");
        }
        let t = kotlin_type(&v[i]);
        out.append(t.as_str());
        proof {
            let s = formats_view(v@.take(i + 1));
            lemma_formats_view(v@.take(i + 1));
            lemma_formats_view(v@.take(i as int));
            assert(s.len() == i + 1);
            assert(s.drop_last() == formats_view(v@.take(i as int)));
            assert(s.last() == v@[i as int]@);
            if i == 0 {
                assert(before.len() == 0);
                assert(out@ =~= t@);
            } else {
                assert(out@ =~= before + ", "@ + t@);
            }
        }
        i = i + 1;
    }
    assert(v@.take(v.len() as int) =~= v@);
    out
}

impl Emitter<Kotlin> for Format {
    open spec fn emitted(&self, w: WriterState, lang: Kotlin) -> WriterState {
        put_str(w, kt_type(self@))
    }

    fn write(&self, w: &mut IndentedWriter, lang: Kotlin) {
        let s = kotlin_type(self);
        w.write_string(&s);
    }
}

/// Doc comments: one `/// ` line per comment.
pub open spec fn kt_doc(w: WriterState, doc: Seq<Seq<char>>) -> WriterState
    decreases doc.len(),
{
    if doc.len() == 0 {
        w
    } else {
        put_line(put_str(kt_doc(w, doc.drop_last()), "/// "@), doc.last())
    }
}

impl Emitter<Kotlin> for Doc {
    open spec fn emitted(&self, w: WriterState, lang: Kotlin) -> WriterState {
        kt_doc(w, self@)
    }

    fn write(&self, w: &mut IndentedWriter, lang: Kotlin) {
        let comments = self.comments();
        let mut i: usize = 0;
        proof {
            assert(seq_view(comments@).take(0) =~= Seq::<Seq<char>>::empty());
        }
        while i < comments.len()
            invariant
                i <= comments.len(),
                seq_view(comments@) == self@,
                w@ == kt_doc(old(w)@, self@.take(i as int)),
            decreases comments.len() - i,
        {
            w.write_str("/// ");
            w.write_line(comments[i].as_str());
            proof {
                assert(self@.take(i + 1).drop_last() =~= self@.take(i as int));
            }
            i = i + 1;
        }
        assert(self@.take(comments.len() as int) =~= self@);
    }
}

/// A property of a data class: `val name: Type,`, with `= null` for an optional type.
pub open spec fn kt_field(w: WriterState, n: NamedV<FormatV>) -> WriterState {
    let w = kt_doc(w, n.doc);
    let w = put_str(put_str(put_str(w, "val "@), n.name), ": "@);
    let w = put_str(w, kt_type(n.value));
    let w = if n.value is Option {
        put_str(w, " = null"@)
    } else {
        w
    };
    put_line(w, ","@)
}

impl Emitter<Kotlin> for Named<Format> {
    open spec fn emitted(&self, w: WriterState, lang: Kotlin) -> WriterState {
        kt_field(w, self@)
    }

    fn write(&self, w: &mut IndentedWriter, lang: Kotlin) {
        self.doc.write(w, lang);
        w.write_str("val ");
        w.write_string(&self.name);
        w.write_str(": ");
        self.value.write(w, lang);
        if matches!(self.value, Format::Option(_)) {
            w.write_str(" = null");
        }
        w.write_line(",");
    }
}


/// `fun bincodeSerialize()`, which serializes with a Bincode serializer.
pub const BINCODE_SERIALIZE: &'static str = "fun bincodeSerialize(): ByteArray {\n    val serializer = BincodeSerializer()\n    serialize(serializer)\n    return serializer.get_bytes()\n}\n";

/// The start of `fun bincodeDeserialize(..)`, up to the return type.
pub const BINCODE_DESERIALIZE_HEAD: &'static str = "@Throws(DeserializationError::class)\nfun bincodeDeserialize(input: ByteArray?): ";

/// The rest of `fun bincodeDeserialize(..)`, after the return type.
pub const BINCODE_DESERIALIZE_TAIL: &'static str = " {\n    if (input == null) {\n        throw DeserializationError(\"Cannot deserialize null array\")\n    }\n    val deserializer = BincodeDeserializer(input)\n    val value = deserialize(deserializer)\n    if (deserializer.get_buffer_offset() < input.size) {\n        throw DeserializationError(\"Some input bytes were not read\")\n    }\n    return value\n}\n";

/// The `serialName` property of JSON enum classes.
pub const JSON_SERIAL_NAME: &'static str = "val serialName: String\n    get() = javaClass.getDeclaredField(name).getAnnotation(SerialName::class.java)!!.value\n";

pub open spec fn kt_push_ser(w: WriterState) -> WriterState {
    put_line(w, "serializer.increase_container_depth()"@)
}

pub open spec fn kt_pop_ser(w: WriterState) -> WriterState {
    put_line(w, "serializer.decrease_container_depth()"@)
}

pub open spec fn kt_push_deser(w: WriterState) -> WriterState {
    put_line(w, "deserializer.increase_container_depth()"@)
}

pub open spec fn kt_pop_deser(w: WriterState) -> WriterState {
    put_line(w, "deserializer.decrease_container_depth()"@)
}

pub open spec fn kt_bincode_serialize(w: WriterState) -> WriterState {
    put_str(w, BINCODE_SERIALIZE@)
}

pub open spec fn kt_bincode_deserialize(w: WriterState, name: Seq<char>) -> WriterState {
    put_str(put_str(put_str(w, BINCODE_DESERIALIZE_HEAD@), name), BINCODE_DESERIALIZE_TAIL@)
}

/// The kotlinx.serialization annotations, for the JSON encoding only.
pub open spec fn kt_json_header(w: WriterState, encoding: Encoding, name: Seq<char>) -> WriterState {
    if encoding == Encoding::Json {
        put_line(put_str(put_str(put_line(w, "@Serializable"@), "@SerialName(\""@), name), "\")"@)
    } else {
        w
    }
}

fn push_serializer(w: &mut IndentedWriter)
    ensures
        final(w)@ == kt_push_ser(old(w)@),
{
    w.write_line("serializer.increase_container_depth()");
}

fn pop_serializer(w: &mut IndentedWriter)
    ensures
        final(w)@ == kt_pop_ser(old(w)@),
{
    w.write_line("serializer.decrease_container_depth()");
}

fn push_deserializer(w: &mut IndentedWriter)
    ensures
        final(w)@ == kt_push_deser(old(w)@),
{
    w.write_line("deserializer.increase_container_depth()");
}

fn pop_deserializer(w: &mut IndentedWriter)
    ensures
        final(w)@ == kt_pop_deser(old(w)@),
{
    w.write_line("deserializer.decrease_container_depth()");
}

fn write_bincode_serialize(w: &mut IndentedWriter)
    ensures
        final(w)@ == kt_bincode_serialize(old(w)@),
{
    w.write_str(BINCODE_SERIALIZE);
}

fn write_bincode_deserialize(w: &mut IndentedWriter, name: &str)
    ensures
        final(w)@ == kt_bincode_deserialize(old(w)@, name@),
{
    w.write_str(BINCODE_DESERIALIZE_HEAD);
    w.write_str(name);
    w.write_str(BINCODE_DESERIALIZE_TAIL);
}

fn write_json_header(w: &mut IndentedWriter, encoding: Encoding, name: &str)
    ensures
        final(w)@ == kt_json_header(old(w)@, encoding, name@),
{
    if encoding.is_json() {
        w.write_line("@Serializable");
        w.write_str("@SerialName(\"");
        w.write_str(name);
        w.write_line("\")");
    }
}

/// Serializing one value: a method of the serializer for primitives, the value's own
/// `serialize` otherwise.
pub open spec fn kt_serialize(w: WriterState, value: Seq<char>, f: FormatV) -> WriterState {
    if is_primitive(f) {
        put_line(put_str(put_str(put_str(put_str(w, "serializer.serialize_"@), primitive_name(f)), "("@), value), ")"@)
    } else {
        put_line(put_str(w, value), ".serialize(serializer)"@)
    }
}

/// Whether a value of format `f` can be deserialized: options, collections and arrays
/// cannot (at any depth of single-element tuples).
pub open spec fn kt_deserializable(f: FormatV) -> bool
    decreases f,
{
    match f {
        FormatV::Option(_) | FormatV::Sequence(_) | FormatV::SetOf(_) | FormatV::MapOf { .. }
        | FormatV::TupleArray { .. } => false,
        FormatV::Tuple(s) => s.len() == 1 ==> kt_deserializable(s[0]),
        _ => true,
    }
}

/// Deserializing one value into `val value`.
pub open spec fn kt_deserialize(w: WriterState, value: Seq<char>, f: FormatV) -> WriterState
    decreases f,
{
    match f {
        FormatV::TypeName(q) => put_line(
            put_str(put_str(put_str(put_str(w, "val "@), value), " = "@), kt_type_name(q)),
            ".deserialize(deserializer)"@,
        ),
        FormatV::Tuple(s) => if s.len() == 0 {
            w
        } else if s.len() == 1 {
            kt_pop_deser(kt_deserialize(kt_push_deser(w), "value"@, s[0]))
        } else {
            put_line(
                put_str(
                    put_str(put_str(put_str(put_str(put_str(w, "val "@), value), " = "@), tuple_class(s.len())), "<"@),
                    kt_type_list(s),
                ),
                ">.deserialize(deserializer)"@,
            )
        },
        _ => if is_primitive(f) {
            put_line(
                put_str(put_str(put_str(put_str(w, "val "@), value), " = deserializer.deserialize_"@), primitive_name(f)),
                "()"@,
            )
        } else {
            w
        },
    }
}

fn write_serialize(w: &mut IndentedWriter, value: &str, format: &Format)
    ensures
        final(w)@ == kt_serialize(old(w)@, value@, format@),
{
    if format_is_primitive(format) {
        w.write_str("serializer.serialize_");
        w.write_str(primitive_name_str(format));
        w.write_str("(");
        w.write_str(value);
        w.write_line(")");
    } else {
        w.write_str(value);
        w.write_line(".serialize(serializer)");
    }
}

fn write_deserialize(w: &mut IndentedWriter, value: &str, format: &Format)
    requires
        kt_deserializable(format@),
    ensures
        final(w)@ == kt_deserialize(old(w)@, value@, format@),
    decreases format, 0nat,
{
    match format {
        Format::TypeName(q) => {
            w.write_str("val ");
            w.write_str(value);
            w.write_str(" = ");
            w.write_string(&kotlin_type_name(q));
            w.write_line(".deserialize(deserializer)");
        },
        Format::Tuple(v) => {
            proof {
                lemma_formats_view(v@);
            }
            let len = v.len();
            if len == 0 {
            } else if len == 1 {
                push_deserializer(w);
                write_single_deserialize(w, v);
                pop_deserializer(w);
            } else {
                w.write_str("val ");
                w.write_str(value);
                w.write_str(" = ");
                w.write_string(&tuple_class_name(len));
                w.write_str("<");
                w.write_string(&kotlin_type_list(v));
                w.write_line(">.deserialize(deserializer)");
            }
        },
        _ => {
            w.write_str("val ");
            w.write_str(value);
            w.write_str(" = deserializer.deserialize_");
            w.write_str(primitive_name_str(format));
            w.write_line("()");
        },
    }
}

/// Deserializes the only element of a one-element tuple into `val value`.
fn write_single_deserialize(w: &mut IndentedWriter, v: &Vec<Format>)
    requires
        v@.len() == 1,
        kt_deserializable(v@[0]@),
    ensures
        final(w)@ == kt_deserialize(old(w)@, "value"@, v@[0]@),
    decreases v@, 1nat,
{
    proof {
        assert(decreases_to!(v@ => v@[0]));
    }
    write_deserialize(w, "value", &v[0]);
}


/// Writes `{}` and ends the line.
fn empty_block(w: &mut IndentedWriter)
    ensures
        final(w)@ == put_line(old(w)@, "{}"@),
{
    w.write_line("{}");
}

/// A `data object`: a type with no fields.
pub open spec fn kt_data_object(
    w: WriterState,
    name: Seq<char>,
    interface: Option<Seq<char>>,
    doc: Seq<Seq<char>>,
    encoding: Encoding,
    variant_index: Option<usize>,
) -> WriterState {
    let w = kt_doc(w, doc);
    let w = kt_json_header(w, encoding, name);
    let w = put_str(put_str(w, "data object "@), name);
    let w = match interface {
        Some(i) => put_str(put_str(w, ": "@), i),
        None => w,
    };
    if encoding == Encoding::Bincode {
        let w = block_opened(put_str(w, " "@));
        let w = if variant_index is Some { put_str(w, "override "@) } else { w };
        let w = put_str(w, "fun serialize(serializer: Serializer) "@);
        let w = match variant_index {
            Some(index) => block_closed(kt_pop_ser(put_line(
                put_str(kt_push_ser(block_opened(w)), "serializer.serialize_variant_index("@ + decimal(index as nat)),
                ")"@,
            ))),
            None => put_line(w, "{}"@),
        };
        let w = put_newline(w);
        let w = if variant_index is None { put_newline(kt_bincode_serialize(w)) } else { w };
        let w = block_opened(put_str(w, "companion object "@));
        let w = block_opened(put_str(put_str(put_str(w, "fun deserialize(deserializer: Deserializer): "@), name), " "@));
        let w = put_line(put_str(put_str(w, "return "@), name), "()"@);
        let w = block_closed(w);
        let w = if variant_index is None { kt_bincode_deserialize(put_newline(w), name) } else { w };
        block_closed(block_closed(w))
    } else {
        put_newline(w)
    }
}

fn data_object(
    w: &mut IndentedWriter,
    name: &str,
    interface: Option<&str>,
    doc: &Doc,
    encoding: Encoding,
    variant_index: Option<usize>,
)
    ensures
        final(w)@ == kt_data_object(old(w)@, name@, match interface { Some(i) => Some(i@), None => None }, doc@, encoding, variant_index),
{
    doc.write(w, Kotlin);
    write_json_header(w, encoding, name);
    w.write_str("data object ");
    w.write_str(name);
    if let Some(interface) = interface {
        w.write_str(": ");
        w.write_str(interface);
    }
    if encoding.is_bincode() {
        w.write_str(" ");
        w.start_block();
        if variant_index.is_some() {
            w.write_str("override ");
        }
        w.write_str("fun serialize(serializer: Serializer) ");
        if let Some(index) = variant_index {
            w.start_block();
            push_serializer(w);
            let mut line = String::from_str("serializer.serialize_variant_index(");
            line.append(usize_to_string(index).as_str());
            w.write_string(&line);
            w.write_line(")");
            pop_serializer(w);
            w.end_block();
        } else {
            empty_block(w);
        }
        w.newline();
        if variant_index.is_none() {
            write_bincode_serialize(w);
            w.newline();
        }
        w.write_str("companion object ");
        w.start_block();
        w.write_str("fun deserialize(deserializer: Deserializer): ");
        w.write_str(name);
        w.write_str(" ");
        w.start_block();
        w.write_str("return ");
        w.write_str(name);
        w.write_line("()");
        w.end_block();
        if variant_index.is_none() {
            w.newline();
            write_bincode_deserialize(w, name);
        }
        w.end_block();
        w.end_block();
    } else {
        w.newline();
    }
}

/// The properties of a data class, one per field.
pub open spec fn kt_fields(w: WriterState, fields: Seq<NamedV<FormatV>>) -> WriterState
    decreases fields.len(),
{
    if fields.len() == 0 {
        w
    } else {
        kt_field(kt_fields(w, fields.drop_last()), fields.last())
    }
}

/// Serializing each field.
pub open spec fn kt_serialize_fields(w: WriterState, fields: Seq<NamedV<FormatV>>) -> WriterState
    decreases fields.len(),
{
    if fields.len() == 0 {
        w
    } else {
        let f = fields.last();
        kt_serialize(kt_serialize_fields(w, fields.drop_last()), f.name, f.value)
    }
}

/// Deserializing each field.
pub open spec fn kt_deserialize_fields(w: WriterState, fields: Seq<NamedV<FormatV>>) -> WriterState
    decreases fields.len(),
{
    if fields.len() == 0 {
        w
    } else {
        let f = fields.last();
        kt_deserialize(kt_deserialize_fields(w, fields.drop_last()), f.name, f.value)
    }
}

/// The field names, separated by `", "`.
pub open spec fn kt_arguments(w: WriterState, fields: Seq<NamedV<FormatV>>) -> WriterState
    decreases fields.len(),
{
    if fields.len() == 0 {
        w
    } else {
        let w = kt_arguments(w, fields.drop_last());
        let w = if fields.len() > 1 { put_str(w, ", "@) } else { w };
        put_str(w, fields.last().name)
    }
}

/// Whether every field can be deserialized.
pub open spec fn kt_fields_deserializable(fields: Seq<NamedV<FormatV>>) -> bool {
    forall|i: int| 0 <= i < fields.len() ==> kt_deserializable(#[trigger] fields[i].value)
}

/// A `data class` with one property per field.
pub open spec fn kt_data_class(
    w: WriterState,
    name: Seq<char>,
    interface: Option<Seq<char>>,
    fields: Seq<NamedV<FormatV>>,
    doc: Seq<Seq<char>>,
    encoding: Encoding,
    variant_index: Option<usize>,
) -> WriterState {
    let w = kt_doc(w, doc);
    let w = kt_json_header(w, encoding, name);
    let w = put_line(put_str(put_str(w, "data class "@), name), "("@);
    let w = unindented(kt_fields(indented(w), fields));
    let w = put_str(w, ")"@);
    let w = match interface {
        Some(i) => put_str(put_str(w, " : "@), i),
        None => w,
    };
    if encoding == Encoding::Bincode {
        let w = block_opened(put_str(w, " "@));
        let w = if variant_index is Some { put_str(w, "override "@) } else { w };
        let w = put_str(w, "fun serialize(serializer: Serializer) "@);
        let w = if fields.len() == 0 {
            put_line(w, "{}"@)
        } else {
            let w = kt_push_ser(block_opened(w));
            let w = match variant_index {
                Some(index) => put_line(put_str(w, "serializer.serialize_variant_index("@ + decimal(index as nat)), ")"@),
                None => w,
            };
            block_closed(kt_pop_ser(kt_serialize_fields(w, fields)))
        };
        let w = put_newline(w);
        let w = if variant_index is None { put_newline(kt_bincode_serialize(w)) } else { w };
        let w = block_opened(put_str(w, "companion object "@));
        let w = block_opened(put_str(put_str(put_str(w, "fun deserialize(deserializer: Deserializer): "@), name), " "@));
        let w = if fields.len() == 0 {
            put_line(put_str(put_str(w, "return "@), name), "()"@)
        } else {
            let w = kt_pop_deser(kt_deserialize_fields(kt_push_deser(w), fields));
            put_line(kt_arguments(put_str(put_str(put_str(w, "return "@), name), "("@), fields), ")"@)
        };
        let w = block_closed(w);
        let w = if variant_index is None { kt_bincode_deserialize(put_newline(w), name) } else { w };
        block_closed(block_closed(w))
    } else {
        put_newline(w)
    }
}

fn write_fields(w: &mut IndentedWriter, fields: &Vec<Named<Format>>)
    ensures
        final(w)@ == kt_fields(old(w)@, seq_view(fields@)),
{
    let mut i: usize = 0;
    while i < fields.len()
        invariant
            i <= fields.len(),
            w@ == kt_fields(old(w)@, seq_view(fields@).take(i as int)),
        decreases fields.len() - i,
    {
        fields[i].write(w, Kotlin);
        assert(seq_view(fields@).take(i + 1).drop_last() =~= seq_view(fields@).take(i as int));
        i = i + 1;
    }
    assert(seq_view(fields@).take(fields.len() as int) =~= seq_view(fields@));
}

fn write_serialize_fields(w: &mut IndentedWriter, fields: &Vec<Named<Format>>)
    ensures
        final(w)@ == kt_serialize_fields(old(w)@, seq_view(fields@)),
{
    let mut i: usize = 0;
    while i < fields.len()
        invariant
            i <= fields.len(),
            w@ == kt_serialize_fields(old(w)@, seq_view(fields@).take(i as int)),
        decreases fields.len() - i,
    {
        write_serialize(w, fields[i].name.as_str(), &fields[i].value);
        assert(seq_view(fields@).take(i + 1).drop_last() =~= seq_view(fields@).take(i as int));
        i = i + 1;
    }
    assert(seq_view(fields@).take(fields.len() as int) =~= seq_view(fields@));
}

fn write_deserialize_fields(w: &mut IndentedWriter, fields: &Vec<Named<Format>>)
    requires
        kt_fields_deserializable(seq_view(fields@)),
    ensures
        final(w)@ == kt_deserialize_fields(old(w)@, seq_view(fields@)),
{
    let mut i: usize = 0;
    while i < fields.len()
        invariant
            i <= fields.len(),
            kt_fields_deserializable(seq_view(fields@)),
            w@ == kt_deserialize_fields(old(w)@, seq_view(fields@).take(i as int)),
        decreases fields.len() - i,
    {
        assert(kt_deserializable(seq_view(fields@)[i as int].value));
        write_deserialize(w, fields[i].name.as_str(), &fields[i].value);
        assert(seq_view(fields@).take(i + 1).drop_last() =~= seq_view(fields@).take(i as int));
        i = i + 1;
    }
    assert(seq_view(fields@).take(fields.len() as int) =~= seq_view(fields@));
}

fn write_arguments(w: &mut IndentedWriter, fields: &Vec<Named<Format>>)
    ensures
        final(w)@ == kt_arguments(old(w)@, seq_view(fields@)),
{
    let mut i: usize = 0;
    while i < fields.len()
        invariant
            i <= fields.len(),
            w@ == kt_arguments(old(w)@, seq_view(fields@).take(i as int)),
        decreases fields.len() - i,
    {
        if i > 0 {
            w.write_str(", ");
        }
        w.write_string(&fields[i].name);
        assert(seq_view(fields@).take(i + 1).drop_last() =~= seq_view(fields@).take(i as int));
        i = i + 1;
    }
    assert(seq_view(fields@).take(fields.len() as int) =~= seq_view(fields@));
}

fn data_class(
    w: &mut IndentedWriter,
    name: &str,
    interface: Option<&str>,
    fields: &Vec<Named<Format>>,
    doc: &Doc,
    encoding: Encoding,
    variant_index: Option<usize>,
)
    requires
        encoding == Encoding::Bincode ==> kt_fields_deserializable(seq_view(fields@)),
    ensures
        final(w)@ == kt_data_class(
            old(w)@,
            name@,
            match interface { Some(i) => Some(i@), None => None },
            seq_view(fields@),
            doc@,
            encoding,
            variant_index,
        ),
{
    doc.write(w, Kotlin);
    write_json_header(w, encoding, name);
    w.write_str("data class ");
    w.write_str(name);
    w.write_line("(");
    w.indent();
    write_fields(w, fields);
    w.unindent();
    w.write_str(")");
    if let Some(interface) = interface {
        w.write_str(" : ");
        w.write_str(interface);
    }
    if encoding.is_bincode() {
        w.write_str(" ");
        w.start_block();
        if variant_index.is_some() {
            w.write_str("override ");
        }
        w.write_str("fun serialize(serializer: Serializer) ");
        if fields.len() == 0 {
            empty_block(w);
        } else {
            w.start_block();
            push_serializer(w);
            if let Some(index) = variant_index {
                let mut line = String::from_str("serializer.serialize_variant_index(");
                line.append(usize_to_string(index).as_str());
                w.write_string(&line);
                w.write_line(")");
            }
            write_serialize_fields(w, fields);
            pop_serializer(w);
            w.end_block();
        }
        w.newline();
        if variant_index.is_none() {
            write_bincode_serialize(w);
            w.newline();
        }
        w.write_str("companion object ");
        w.start_block();
        w.write_str("fun deserialize(deserializer: Deserializer): ");
        w.write_str(name);
        w.write_str(" ");
        w.start_block();
        if fields.len() == 0 {
            w.write_str("return ");
            w.write_str(name);
            w.write_line("()");
        } else {
            push_deserializer(w);
            write_deserialize_fields(w, fields);
            pop_deserializer(w);
            w.write_str("return ");
            w.write_str(name);
            w.write_str("(");
            write_arguments(w, fields);
            w.write_line(")");
        }
        w.end_block();
        if variant_index.is_none() {
            w.newline();
            write_bincode_deserialize(w, name);
        }
        w.end_block();
        w.end_block();
    } else {
        w.newline();
    }
}

/// The fields `field_0`, `field_1`, ... of a tuple.
pub open spec fn kt_named(s: Seq<FormatV>) -> Seq<NamedV<FormatV>> {
    Seq::new(s.len(), |i: int| NamedV { name: "field_"@ + decimal(i as nat), doc: Seq::empty(), value: s[i] })
}

/// Names the elements of a tuple `field_0`, `field_1`, ...
pub fn named(formats: &Vec<Format>) -> (r: Vec<Named<Format>>)
    ensures
        seq_view(r@) == kt_named(formats_view(formats@)),
{
    proof {
        lemma_formats_view(formats@);
    }
    let mut out: Vec<Named<Format>> = Vec::new();
    let mut i: usize = 0;
    while i < formats.len()
        invariant
            i <= formats.len(),
            formats_view(formats@) == seq_view(formats@),
            out.len() == i,
            forall|j: int| 0 <= j < i ==> #[trigger] out@[j]@ == kt_named(formats_view(formats@))[j],
        decreases formats.len() - i,
    {
        let mut name = String::from_str("field_");
        name.append(usize_to_string(i).as_str());
        out.push(Named { name, doc: Doc::new(), value: formats[i].clone() });
        i = i + 1;
    }
    assert(seq_view(out@) =~= kt_named(formats_view(formats@)));
    out
}

/// Where a variant is written: as a member of a sealed interface (with the interface's
/// name and the variant's position), or as an entry of an enum class.
pub enum VariantContext {
    SealedInterface(String, usize),
    EnumClass,
}

/// An entry of an enum class: its name in upper case, with its serial name for JSON.
pub open spec fn kt_enum_entry(w: WriterState, v: NamedV<VariantFormatV>, encoding: Encoding) -> WriterState {
    let w = kt_doc(w, v.doc);
    if encoding == Encoding::Json {
        put_str(put_str(put_str(put_str(w, "@SerialName(\""@), v.name), "\") "@), uppercase(v.name))
    } else {
        put_str(w, uppercase(v.name))
    }
}

/// The single field `value` of a newtype.
pub open spec fn kt_value_field(f: FormatV) -> Seq<NamedV<FormatV>> {
    seq![NamedV { name: "value"@, doc: Seq::empty(), value: f }]
}

/// A variant: an enum class entry, or a member of a sealed interface.
/// The context is `None` for an enum class entry, and the interface's name and the
/// variant's position for a member of a sealed interface.
pub open spec fn kt_variant(w: WriterState, v: NamedV<VariantFormatV>, context: Option<(Seq<char>, usize)>, encoding: Encoding) -> WriterState {
    match context {
        None => kt_enum_entry(w, v, encoding),
        Some((interface, index)) => match v.value {
            VariantFormatV::Unit => kt_data_object(w, v.name, Some(interface), v.doc, encoding, Some(index)),
            VariantFormatV::NewType(f) => kt_data_class(w, v.name, Some(interface), kt_value_field(f), v.doc, encoding, Some(index)),
            VariantFormatV::Tuple(s) => kt_data_class(w, v.name, Some(interface), kt_named(s), v.doc, encoding, Some(index)),
            VariantFormatV::Struct(fs) => kt_data_class(w, v.name, Some(interface), fs, v.doc, encoding, Some(index)),
        },
    }
}

/// The model of a [`VariantContext`].
pub open spec fn context_view(c: VariantContext) -> Option<(Seq<char>, usize)> {
    match c {
        VariantContext::EnumClass => None,
        VariantContext::SealedInterface(name, index) => Some((name@, index)),
    }
}

/// Whether the fields of a variant can be deserialized.
pub open spec fn kt_variant_deserializable(v: VariantFormatV) -> bool {
    match v {
        VariantFormatV::Unit => true,
        VariantFormatV::NewType(f) => kt_deserializable(f),
        VariantFormatV::Tuple(s) => kt_formats_deserializable(s),
        VariantFormatV::Struct(fs) => kt_fields_deserializable(fs),
    }
}

/// A one-field vector holding `value`.
fn value_field(f: &Format) -> (r: Vec<Named<Format>>)
    ensures
        seq_view(r@) == kt_value_field(f@),
{
    let mut v: Vec<Named<Format>> = Vec::new();
    v.push(Named { name: String::from_str("value"), doc: Doc::new(), value: f.clone() });
    assert(seq_view(v@) =~= kt_value_field(f@));
    v
}

fn write_variant(w: &mut IndentedWriter, variant: &Named<VariantFormat>, context: &VariantContext, encoding: Encoding)
    requires
        *context == VariantContext::EnumClass ==> variant@.value == VariantFormatV::Unit,
        encoding == Encoding::Bincode ==> kt_variant_deserializable(variant@.value),
    ensures
        final(w)@ == kt_variant(old(w)@, variant@, context_view(*context), encoding),
{
    match context {
        VariantContext::EnumClass => {
            variant.doc.write(w, Kotlin);
            let name_upper = to_uppercase(variant.name.as_str());
            if encoding.is_json() {
                w.write_str("@SerialName(\"");
                w.write_string(&variant.name);
                w.write_str("\") ");
                w.write_string(&name_upper);
            } else {
                w.write_string(&name_upper);
            }
        },
        VariantContext::SealedInterface(interface, index) => match &variant.value {
            VariantFormat::Unit => {
                data_object(w, variant.name.as_str(), Some(interface.as_str()), &variant.doc, encoding, Some(*index));
            },
            VariantFormat::NewType(f) => {
                let fields = value_field(f);
                data_class(w, variant.name.as_str(), Some(interface.as_str()), &fields, &variant.doc, encoding, Some(*index));
            },
            VariantFormat::Tuple(formats) => {
                proof {
                    lemma_formats_view(formats@);
                }
                let fields = named(formats);
                proof {
                    assert(seq_view(fields@) == kt_named(seq_view(formats@)));
                    if encoding == Encoding::Bincode {
                        assert(kt_formats_deserializable(seq_view(formats@)));
                        assert forall|i: int| 0 <= i < seq_view(fields@).len() implies kt_deserializable(#[trigger] seq_view(fields@)[i].value) by {
                            assert(seq_view(fields@)[i].value == seq_view(formats@)[i]);
                        }
                    }
                }
                data_class(w, variant.name.as_str(), Some(interface.as_str()), &fields, &variant.doc, encoding, Some(*index));
            },
            VariantFormat::Struct(fields) => {
                data_class(w, variant.name.as_str(), Some(interface.as_str()), fields, &variant.doc, encoding, Some(*index));
            },
        },
    }
}


/// The closing line of a `when` over variant indexes.
pub open spec fn kt_unknown_variant(w: WriterState, name: Seq<char>) -> WriterState {
    put_line(put_str(put_str(w, "else -> throw DeserializationError(\"Unknown variant index for "@), name), ": $index\")"@)
}

fn write_unknown_variant(w: &mut IndentedWriter, name: &str)
    ensures
        final(w)@ == kt_unknown_variant(old(w)@, name@),
{
    w.write_str("else -> throw DeserializationError(\"Unknown variant index for ");
    w.write_str(name);
    w.write_line(": $index\")");
}

/// The entries of an enum class, separated by `,` lines (before each entry whose index is
/// not zero).
pub open spec fn kt_enum_entries(w: WriterState, variants: Seq<(u32, NamedV<VariantFormatV>)>, encoding: Encoding) -> WriterState
    decreases variants.len(),
{
    if variants.len() == 0 {
        w
    } else {
        let w = kt_enum_entries(w, variants.drop_last(), encoding);
        let (i, v) = variants.last();
        let w = if i > 0 { put_line(w, ","@) } else { w };
        kt_enum_entry(w, v, encoding)
    }
}

/// The branches `i -> ENTRY` of the deserialization of an enum class.
pub open spec fn kt_enum_cases(w: WriterState, variants: Seq<(u32, NamedV<VariantFormatV>)>, encoding: Encoding) -> WriterState
    decreases variants.len(),
{
    if variants.len() == 0 {
        w
    } else {
        let w = kt_enum_cases(w, variants.drop_last(), encoding);
        let (i, v) = variants.last();
        let w = put_str(put_str(w, decimal(i as nat)), " -> "@);
        put_newline(kt_enum_entry(w, NamedV { name: v.name, doc: Seq::empty(), value: v.value }, encoding))
    }
}

/// Whether every variant is a unit variant.
pub open spec fn all_unit(variants: Seq<(u32, NamedV<VariantFormatV>)>) -> bool {
    forall|i: int| 0 <= i < variants.len() ==> (#[trigger] variants[i]).1.value == VariantFormatV::Unit
}

/// An `enum class` for an enum whose variants are all units.
pub open spec fn kt_enum_class(
    w: WriterState,
    name: Seq<char>,
    variants: Seq<(u32, NamedV<VariantFormatV>)>,
    doc: Seq<Seq<char>>,
    encoding: Encoding,
) -> WriterState {
    let w = kt_doc(w, doc);
    let w = kt_json_header(w, encoding, name);
    let w = put_line(put_str(put_str(w, "enum class "@), name), " {"@);
    let w = indented(w);
    let w = kt_enum_entries(w, variants, encoding);
    let w = put_newline(put_line(w, ";"@));
    let w = if encoding == Encoding::Json {
        put_str(w, JSON_SERIAL_NAME@)
    } else if encoding == Encoding::Bincode {
        let w = block_opened(put_str(w, "fun serialize(serializer: Serializer) "@));
        let w = kt_pop_ser(put_line(kt_push_ser(w), "serializer.serialize_variant_index(ordinal)"@));
        let w = put_newline(block_closed(w));
        let w = put_newline(kt_bincode_serialize(w));
        let w = block_opened(put_str(w, "companion object "@));
        let w = put_line(w, "@Throws(DeserializationError::class)"@);
        let w = block_opened(put_str(put_str(put_str(w, "fun deserialize(deserializer: Deserializer): "@), name), " "@));
        let w = kt_pop_deser(put_line(kt_push_deser(w), "val index = deserializer.deserialize_variant_index()"@));
        let w = block_opened(put_str(w, "return when (index) "@));
        let w = kt_enum_cases(w, variants, encoding);
        let w = kt_unknown_variant(w, name);
        let w = put_newline(block_closed(block_closed(w)));
        block_closed(kt_bincode_deserialize(w, name))
    } else {
        w
    };
    put_line(unindented(w), "}"@)
}

fn enum_class(w: &mut IndentedWriter, name: &str, variants: &VariantMap, doc: &Doc, encoding: Encoding)
    requires
        all_unit(variants@),
    ensures
        final(w)@ == kt_enum_class(old(w)@, name@, variants@, doc@, encoding),
{
    doc.write(w, Kotlin);
    write_json_header(w, encoding, name);
    w.write_str("enum class ");
    w.write_str(name);
    w.write_line(" {");
    w.indent();
    let ghost start = w@;
    let mut i: usize = 0;
    while i < variants.len()
        invariant
            i <= variants@.len(),
            all_unit(variants@),
            w@ == kt_enum_entries(start, variants@.take(i as int), encoding),
        decreases variants@.len() - i,
    {
        let (k, v) = variants.entry(i);
        if *k > 0 {
            w.write_line(",");
        }
        assert(variants@[i as int].1.value == VariantFormatV::Unit);
        write_variant(w, v, &VariantContext::EnumClass, encoding);
        assert(variants@.take(i + 1).drop_last() =~= variants@.take(i as int));
        i = i + 1;
    }
    assert(variants@.take(variants@.len() as int) =~= variants@);
    w.write_line(";");
    w.newline();
    match encoding {
        Encoding::Json => {
            w.write_str(JSON_SERIAL_NAME);
        },
        Encoding::Bincode => {
            w.write_str("fun serialize(serializer: Serializer) ");
            w.start_block();
            push_serializer(w);
            w.write_line("serializer.serialize_variant_index(ordinal)");
            pop_serializer(w);
            w.end_block();
            w.newline();
            write_bincode_serialize(w);
            w.newline();
            w.write_str("companion object ");
            w.start_block();
            w.write_line("@Throws(DeserializationError::class)");
            w.write_str("fun deserialize(deserializer: Deserializer): ");
            w.write_str(name);
            w.write_str(" ");
            w.start_block();
            push_deserializer(w);
            w.write_line("val index = deserializer.deserialize_variant_index()");
            pop_deserializer(w);
            w.write_str("return when (index) ");
            w.start_block();
            let ghost cases = w@;
            let mut j: usize = 0;
            while j < variants.len()
                invariant
                    j <= variants@.len(),
                    all_unit(variants@),
                    w@ == kt_enum_cases(cases, variants@.take(j as int), encoding),
                decreases variants@.len() - j,
            {
                let (k, v) = variants.entry(j);
                w.write_string(&usize_to_string(*k as usize));
                w.write_str(" -> ");
                let bare = v.without_docs();
                assert(variants@[j as int].1.value == VariantFormatV::Unit);
                write_variant(w, &bare, &VariantContext::EnumClass, encoding);
                w.newline();
                assert(variants@.take(j + 1).drop_last() =~= variants@.take(j as int));
                j = j + 1;
            }
            assert(variants@.take(variants@.len() as int) =~= variants@);
            write_unknown_variant(w, name);
            w.end_block();
            w.end_block();
            w.newline();
            write_bincode_deserialize(w, name);
            w.end_block();
        },
        _ => {},
    }
    w.unindent();
    w.write_line("}");
}

/// The members of a sealed interface, separated by empty lines.
pub open spec fn kt_sealed_members(
    w: WriterState,
    name: Seq<char>,
    variants: Seq<NamedV<VariantFormatV>>,
    encoding: Encoding,
) -> WriterState
    decreases variants.len(),
{
    if variants.len() == 0 {
        w
    } else {
        let index = (variants.len() - 1) as usize;
        let w = kt_sealed_members(w, name, variants.drop_last(), encoding);
        let w = if index > 0 { put_newline(w) } else { w };
        kt_variant(w, variants.last(), Some((name, index)), encoding)
    }
}

/// The branches `i -> Variant.deserialize(deserializer)` of a sealed interface.
pub open spec fn kt_sealed_cases(w: WriterState, variants: Seq<NamedV<VariantFormatV>>) -> WriterState
    decreases variants.len(),
{
    if variants.len() == 0 {
        w
    } else {
        let i = (variants.len() - 1) as nat;
        let w = kt_sealed_cases(w, variants.drop_last());
        put_line(put_str(put_str(w, decimal(i)), " -> "@ + variants.last().name), ".deserialize(deserializer)"@)
    }
}

/// The companion object of a sealed interface with Bincode: deserialization by variant
/// index.
pub open spec fn kt_sealed_companion(w: WriterState, name: Seq<char>, variants: Seq<NamedV<VariantFormatV>>) -> WriterState {
    let w = block_opened(put_str(put_newline(w), "companion object "@));
    let w = put_line(w, "@Throws(DeserializationError::class)"@);
    let w = block_opened(put_str(put_str(put_str(w, "fun deserialize(deserializer: Deserializer): "@), name), " "@));
    let w = put_line(w, "val index = deserializer.deserialize_variant_index()"@);
    let w = block_opened(put_str(w, "return when (index) "@));
    let w = kt_sealed_cases(w, variants);
    let w = put_newline(block_closed(block_closed(kt_unknown_variant(w, name))));
    block_closed(kt_bincode_deserialize(w, name))
}

fn write_sealed_companion(w: &mut IndentedWriter, name: &String, variants: &Vec<Named<VariantFormat>>)
    ensures
        final(w)@ == kt_sealed_companion(old(w)@, name@, seq_view(variants@)),
{
    w.newline();
    w.write_str("companion object ");
    w.start_block();
    w.write_line("@Throws(DeserializationError::class)");
    w.write_str("fun deserialize(deserializer: Deserializer): ");
    w.write_string(name);
    w.write_str(" ");
    w.start_block();
    w.write_line("val index = deserializer.deserialize_variant_index()");
    w.write_str("return when (index) ");
    w.start_block();
    let ghost cases = w@;
    let mut j: usize = 0;
    while j < variants.len()
        invariant
            j <= variants.len(),
            w@ == kt_sealed_cases(cases, seq_view(variants@).take(j as int)),
        decreases variants.len() - j,
    {
        w.write_string(&usize_to_string(j));
        let mut rest = String::from_str(" -> ");
        rest.append(variants[j].name.as_str());
        w.write_string(&rest);
        w.write_line(".deserialize(deserializer)");
        assert(seq_view(variants@).take(j + 1).drop_last() =~= seq_view(variants@).take(j as int));
        j = j + 1;
    }
    assert(seq_view(variants@).take(variants.len() as int) =~= seq_view(variants@));
    write_unknown_variant(w, name.as_str());
    w.end_block();
    w.end_block();
    w.newline();
    write_bincode_deserialize(w, name.as_str());
    w.end_block();
}

/// A `sealed interface` with one member per variant.
pub open spec fn kt_sealed_interface(
    w: WriterState,
    name: Seq<char>,
    variants: Seq<NamedV<VariantFormatV>>,
    doc: Seq<Seq<char>>,
    encoding: Encoding,
) -> WriterState {
    let w = kt_doc(w, doc);
    let w = kt_json_header(w, encoding, name);
    let w = block_opened(put_str(put_str(put_str(w, "sealed interface "@), name), " "@));
    let w = if encoding == Encoding::Bincode {
        put_newline(kt_bincode_serialize(put_newline(put_line(w, "fun serialize(serializer: Serializer)"@))))
    } else {
        w
    };
    let w = kt_sealed_members(w, name, variants, encoding);
    let w = if encoding == Encoding::Bincode {
        kt_sealed_companion(w, name, variants)
    } else {
        w
    };
    block_closed(w)
}

fn sealed_interface(w: &mut IndentedWriter, name: &String, variants: &Vec<Named<VariantFormat>>, doc: &Doc, encoding: Encoding)
    requires
        encoding == Encoding::Bincode ==> forall|i: int| 0 <= i < variants@.len() ==> kt_variant_deserializable(#[trigger] variants@[i]@.value),
    ensures
        final(w)@ == kt_sealed_interface(old(w)@, name@, seq_view(variants@), doc@, encoding),
{
    doc.write(w, Kotlin);
    write_json_header(w, encoding, name.as_str());
    w.write_str("sealed interface ");
    w.write_string(name);
    w.write_str(" ");
    w.start_block();
    if encoding.is_bincode() {
        w.write_line("fun serialize(serializer: Serializer)");
        w.newline();
        write_bincode_serialize(w);
        w.newline();
    }
    let ghost start = w@;
    let mut i: usize = 0;
    while i < variants.len()
        invariant
            i <= variants.len(),
            encoding == Encoding::Bincode ==> forall|i: int| 0 <= i < variants@.len() ==> kt_variant_deserializable(#[trigger] variants@[i]@.value),
            w@ == kt_sealed_members(start, name@, seq_view(variants@).take(i as int), encoding),
        decreases variants.len() - i,
    {
        if i > 0 {
            w.newline();
        }
        let ctx = VariantContext::SealedInterface(name.clone(), i);
        write_variant(w, &variants[i], &ctx, encoding);
        assert(seq_view(variants@).take(i + 1).drop_last() =~= seq_view(variants@).take(i as int));
        i = i + 1;
    }
    assert(seq_view(variants@).take(variants.len() as int) =~= seq_view(variants@));
    if encoding.is_bincode() {
        write_sealed_companion(w, name, variants);
    }
    w.end_block();
}


/// Whether the emitter supports a container under `encoding`: with Bincode, every field
/// that gets deserialized has a deserializable format.
pub open spec fn kt_container_supported(encoding: Encoding, c: ContainerFormatV) -> bool {
    (encoding == Encoding::Bincode) ==> match c {
        ContainerFormatV::UnitStruct(_) => true,
        ContainerFormatV::NewTypeStruct(f, _) => kt_deserializable(f),
        ContainerFormatV::TupleStruct(s, _) => kt_formats_deserializable(s),
        ContainerFormatV::Struct(fs, _) => kt_fields_deserializable(fs),
        ContainerFormatV::Enum(vs, _) => !all_unit(vs) ==> kt_variants_deserializable(vs),
    }
}

/// Whether every format can be deserialized.
pub open spec fn kt_formats_deserializable(s: Seq<FormatV>) -> bool {
    forall|i: int| 0 <= i < s.len() ==> kt_deserializable(#[trigger] s[i])
}

/// Whether the fields of every variant can be deserialized.
pub open spec fn kt_variants_deserializable(vs: Seq<(u32, NamedV<VariantFormatV>)>) -> bool {
    forall|i: int| 0 <= i < vs.len() ==> kt_variant_deserializable(#[trigger] vs[i].1.value)
}

/// The values of the entries of a variant map, in index order.
pub open spec fn variant_values(vs: Seq<(u32, NamedV<VariantFormatV>)>) -> Seq<NamedV<VariantFormatV>> {
    vs.map_values(|e: (u32, NamedV<VariantFormatV>)| e.1)
}

/// A type alias: `typealias Name = Type`.
pub open spec fn kt_type_alias(w: WriterState, name: Seq<char>, f: FormatV, doc: Seq<Seq<char>>) -> WriterState {
    put_line(kt_doc(w, doc), "typealias "@ + name + " = "@ + kt_type(f))
}

fn type_alias(w: &mut IndentedWriter, name: &str, f: &Format, doc: &Doc)
    ensures
        final(w)@ == kt_type_alias(old(w)@, name@, f@, doc@),
{
    doc.write(w, Kotlin);
    w.write_line(concat4("typealias ", name, " = ", kotlin_type(f).as_str()).as_str());
}

/// A type definition. A newtype struct is an alias of the type it wraps, but under Bincode,
/// where it is a data class with a `value` property that carries the serialization methods.
pub open spec fn kt_container(w: WriterState, encoding: Encoding, name: Seq<char>, c: ContainerFormatV) -> WriterState {
    match c {
        ContainerFormatV::UnitStruct(doc) => kt_data_object(w, name, None, doc, encoding, None),
        ContainerFormatV::NewTypeStruct(f, doc) => if encoding == Encoding::Bincode {
            kt_data_class(w, name, None, kt_value_field(f), doc, encoding, None)
        } else {
            kt_type_alias(w, name, f, doc)
        },
        ContainerFormatV::TupleStruct(s, doc) => kt_data_class(w, name, None, kt_named(s), doc, encoding, None),
        ContainerFormatV::Struct(fs, doc) => if fs.len() == 0 {
            kt_data_object(w, name, None, doc, encoding, None)
        } else {
            kt_data_class(w, name, None, fs, doc, encoding, None)
        },
        ContainerFormatV::Enum(vs, doc) => if all_unit(vs) {
            kt_enum_class(w, name, vs, doc, encoding)
        } else {
            kt_sealed_interface(w, name, variant_values(vs), doc, encoding)
        },
    }
}

/// Whether every variant is a unit variant.
fn variants_all_unit(variants: &VariantMap) -> (b: bool)
    ensures
        b == all_unit(variants@),
{
    let mut i: usize = 0;
    while i < variants.len()
        invariant
            i <= variants@.len(),
            forall|j: int| 0 <= j < i ==> (#[trigger] variants@[j]).1.value == VariantFormatV::Unit,
        decreases variants@.len() - i,
    {
        let (_k, v) = variants.entry(i);
        if !matches!(v.value, VariantFormat::Unit) {
            return false;
        }
        i = i + 1;
    }
    true
}

/// The variants of an enum, in index order.
fn variant_list(variants: &VariantMap) -> (r: Vec<Named<VariantFormat>>)
    ensures
        seq_view(r@) == variant_values(variants@),
{
    let mut out: Vec<Named<VariantFormat>> = Vec::new();
    let mut i: usize = 0;
    while i < variants.len()
        invariant
            i <= variants@.len(),
            out.len() == i,
            forall|j: int| 0 <= j < i ==> out@[j]@ == (#[trigger] variants@[j]).1,
        decreases variants@.len() - i,
    {
        let (_k, v) = variants.entry(i);
        out.push(v.clone());
        i = i + 1;
    }
    assert(seq_view(out@) =~= variant_values(variants@));
    out
}

/// Writes a type definition: a data object for a unit struct or a struct without fields,
/// a data class for other structs, an enum class for an enum of unit variants, and a
/// sealed interface for other enums.
pub fn write_container(w: &mut IndentedWriter, encoding: Encoding, name: &QualifiedTypeName, format: &ContainerFormat)
    requires
        kt_container_supported(encoding, format@),
    ensures
        final(w)@ == kt_container(old(w)@, encoding, name.name@, format@),
{
    match format {
        ContainerFormat::UnitStruct(doc) => {
            data_object(w, name.name.as_str(), None, doc, encoding, None);
        },
        ContainerFormat::NewTypeStruct(f, doc) => {
            if encoding.is_bincode() {
                let fields = value_field(f);
                data_class(w, name.name.as_str(), None, &fields, doc, encoding, None);
            } else {
                type_alias(w, name.name.as_str(), f, doc);
            }
        },
        ContainerFormat::TupleStruct(formats, doc) => {
            proof {
                lemma_formats_view(formats@);
            }
            let fields = named(formats);
            proof {
                if encoding == Encoding::Bincode {
                    assert forall|i: int| 0 <= i < seq_view(fields@).len() implies kt_deserializable(#[trigger] seq_view(fields@)[i].value) by {
                        assert(seq_view(fields@)[i].value == seq_view(formats@)[i]);
                        assert(kt_formats_deserializable(seq_view(formats@)));
                        assert(seq_view(fields@).len() == formats@.len());
                        assert(kt_deserializable(seq_view(formats@)[i]));
                    }
                }
            }
            data_class(w, name.name.as_str(), None, &fields, doc, encoding, None);
        },
        ContainerFormat::Struct(fields, doc) => {
            if fields.len() == 0 {
                data_object(w, name.name.as_str(), None, doc, encoding, None);
            } else {
                data_class(w, name.name.as_str(), None, fields, doc, encoding, None);
            }
        },
        ContainerFormat::Enum(variants, doc) => {
            if variants_all_unit(variants) {
                enum_class(w, name.name.as_str(), variants, doc, encoding);
            } else {
                let list = variant_list(variants);
                proof {
                    if encoding == Encoding::Bincode {
                        assert forall|i: int| 0 <= i < list@.len() implies kt_variant_deserializable(#[trigger] list@[i]@.value) by {
                            assert(seq_view(list@).len() == list@.len());
                            assert(variant_values(variants@).len() == variants@.len());
                            assert(seq_view(list@)[i] == list@[i]@);
                            assert(variant_values(variants@)[i] == variants@[i].1);
                            assert(kt_variants_deserializable(variants@));
                        }
                    }
                }
                sealed_interface(w, &name.name, &list, doc, encoding);
            }
        },
    }
}

/// The import lines of a Kotlin file, sorted.
pub const IMPORTS_JSON: &'static str = "import kotlinx.serialization.SerialName\nimport kotlinx.serialization.Serializable";

/// The import lines of a Kotlin file with JSON and big integers, sorted.
pub const IMPORTS_JSON_BIGINT: &'static str = "import java.math.BigInteger\nimport kotlinx.serialization.KSerializer\nimport kotlinx.serialization.SerialName\nimport kotlinx.serialization.Serializable\nimport kotlinx.serialization.descriptors.PrimitiveKind\nimport kotlinx.serialization.descriptors.PrimitiveSerialDescriptor\nimport kotlinx.serialization.encoding.Decoder\nimport kotlinx.serialization.encoding.Encoder\nimport kotlinx.serialization.json.JsonDecoder\nimport kotlinx.serialization.json.JsonEncoder\nimport kotlinx.serialization.json.JsonUnquotedLiteral\nimport kotlinx.serialization.json.jsonPrimitive";

/// The import lines of a Kotlin file with Bincode, sorted.
pub const IMPORTS_BINCODE: &'static str = "import com.novi.bincode.BincodeDeserializer\nimport com.novi.bincode.BincodeSerializer\nimport com.novi.serde.DeserializationError\nimport com.novi.serde.Deserializer\nimport com.novi.serde.Serializer";

/// The serializer of `BigInteger` as a JSON number.
pub const BIGINT_SERIALIZER: &'static str = "typealias BigInteger = @Serializable(with = BigIntegerSerializer::class) BigInteger\n\nprivate object BigIntegerSerializer : KSerializer<BigInteger> {\n    override val descriptor = PrimitiveSerialDescriptor(\"java.math.BigInteger\", PrimitiveKind.STRING)\n\n    override fun deserialize(decoder: Decoder): BigInteger =\n        when (decoder) {\n            is JsonDecoder -> decoder.decodeJsonElement().jsonPrimitive.content.toBigInteger()\n            else -> decoder.decodeString().toBigInteger()\n        }\n\n    override fun serialize(encoder: Encoder, value: BigInteger) =\n        when (encoder) {\n            is JsonEncoder -> encoder.encodeJsonElement(JsonUnquotedLiteral(value.toString()))\n            else -> encoder.encodeString(value.toString())\n        }\n}\n";

/// The imports for an encoding, if it needs any.
pub open spec fn kt_imports(encoding: Encoding, has_bigint: bool) -> Option<Seq<char>> {
    if encoding == Encoding::Json {
        if has_bigint { Some(IMPORTS_JSON_BIGINT@) } else { Some(IMPORTS_JSON@) }
    } else if encoding == Encoding::Bincode {
        Some(IMPORTS_BINCODE@)
    } else {
        None
    }
}

/// The header of a Kotlin file: the package, the imports, and the `BigInteger` alias.
pub open spec fn kt_module(w: WriterState, module_name: Seq<char>, encoding: Encoding, has_bigint: bool) -> WriterState {
    let w = put_newline(put_line(put_str(w, "package "@), module_name));
    let w = match kt_imports(encoding, has_bigint) {
        Some(t) => put_newline(put_line(w, t)),
        None => w,
    };
    if has_bigint {
        if encoding == Encoding::Json {
            put_str(w, BIGINT_SERIALIZER@)
        } else {
            put_line(w, "typealias BigInteger = java.math.BigInteger"@)
        }
    } else {
        w
    }
}

impl Emitter<Kotlin> for Module {
    open spec fn emitted(&self, w: WriterState, lang: Kotlin) -> WriterState {
        kt_module(w, self.config().module_name@, self.config().encoding, self.config().has_bigint)
    }

    fn write(&self, w: &mut IndentedWriter, lang: Kotlin) {
        let config = self.config();
        w.write_str("package ");
        w.write_line(config.module_name.as_str());
        w.newline();
        let imports = match config.encoding {
            Encoding::Json => if config.has_bigint { Some(IMPORTS_JSON_BIGINT) } else { Some(IMPORTS_JSON) },
            Encoding::Bincode => Some(IMPORTS_BINCODE),
            _ => None,
        };
        if let Some(text) = imports {
            w.write_line(text);
            w.newline();
        }
        if config.has_bigint {
            if config.encoding.is_json() {
                w.write_str(BIGINT_SERIALIZER);
            } else {
                w.write_line("typealias BigInteger = java.math.BigInteger");
            }
        }
    }
}

} // verus!

verus! {

broadcast use {
    lemma_put_line_keeps_indentation,
    lemma_put_str_same_indentation,
    lemma_put_newline_keeps_indentation,
    lemma_indented_prefix,
    lemma_unindented_after,
};

proof fn lemma_kt_doc_balanced(w: WriterState, doc: Seq<Seq<char>>)
    ensures
        same_indentation(w, kt_doc(w, doc)),
    decreases doc.len(),
{
    if doc.len() > 0 {
        lemma_kt_doc_balanced(w, doc.drop_last());
    }
}

proof fn lemma_kt_deserialize_balanced(w: WriterState, value: Seq<char>, f: FormatV)
    ensures
        same_indentation(w, kt_deserialize(w, value, f)),
    decreases f,
{
    if let FormatV::Tuple(s) = f {
        if s.len() == 1 {
            assert(decreases_to!(s => s[0]));
            lemma_kt_deserialize_balanced(kt_push_deser(w), "value"@, s[0]);
        }
    }
}

proof fn lemma_kt_fields_balanced(w: WriterState, fields: Seq<NamedV<FormatV>>)
    ensures
        same_indentation(w, kt_fields(w, fields)),
        same_indentation(w, kt_serialize_fields(w, fields)),
        same_indentation(w, kt_deserialize_fields(w, fields)),
        same_indentation(w, kt_arguments(w, fields)),
    decreases fields.len(),
{
    if fields.len() > 0 {
        let rest = fields.drop_last();
        let f = fields.last();
        lemma_kt_fields_balanced(w, rest);
        lemma_kt_doc_balanced(kt_fields(w, rest), f.doc);
        lemma_kt_deserialize_balanced(kt_deserialize_fields(w, rest), f.name, f.value);
    }
}

proof fn lemma_kt_data_object_balanced(
    w: WriterState,
    name: Seq<char>,
    interface: Option<Seq<char>>,
    doc: Seq<Seq<char>>,
    encoding: Encoding,
    variant_index: Option<usize>,
)
    ensures
        same_indentation(w, kt_data_object(w, name, interface, doc, encoding, variant_index)),
{
    lemma_kt_doc_balanced(w, doc);
}

proof fn lemma_kt_data_class_balanced(
    w: WriterState,
    name: Seq<char>,
    interface: Option<Seq<char>>,
    fields: Seq<NamedV<FormatV>>,
    doc: Seq<Seq<char>>,
    encoding: Encoding,
    variant_index: Option<usize>,
)
    ensures
        same_indentation(w, kt_data_class(w, name, interface, fields, doc, encoding, variant_index)),
{
    lemma_kt_doc_balanced(w, doc);
    let w1 = put_line(put_str(put_str(kt_json_header(kt_doc(w, doc), encoding, name), "data class "@), name), "("@);
    lemma_kt_fields_balanced(indented(w1), fields);
    let w2 = put_str(unindented(kt_fields(indented(w1), fields)), ")"@);
    let w3 = match interface {
        Some(i) => put_str(put_str(w2, " : "@), i),
        None => w2,
    };
    let w4 = put_str(block_opened(put_str(w3, " "@)), if variant_index is Some { "override "@ } else { Seq::empty() });
    let w5 = put_str(if variant_index is Some { put_str(block_opened(put_str(w3, " "@)), "override "@) } else { block_opened(put_str(w3, " "@)) }, "fun serialize(serializer: Serializer) "@);
    let w6 = kt_push_ser(block_opened(w5));
    let w7 = match variant_index {
        Some(index) => put_line(put_str(w6, "serializer.serialize_variant_index("@ + decimal(index as nat)), ")"@),
        None => w6,
    };
    lemma_kt_fields_balanced(w7, fields);
    let w8 = if fields.len() == 0 { put_line(w5, "{}"@) } else { block_closed(kt_pop_ser(kt_serialize_fields(w7, fields))) };
    let w9 = put_newline(w8);
    let w10 = if variant_index is None { put_newline(kt_bincode_serialize(w9)) } else { w9 };
    let w11 = block_opened(put_str(w10, "companion object "@));
    let w12 = block_opened(put_str(put_str(put_str(w11, "fun deserialize(deserializer: Deserializer): "@), name), " "@));
    lemma_kt_fields_balanced(kt_push_deser(w12), fields);
    let w13 = kt_pop_deser(kt_deserialize_fields(kt_push_deser(w12), fields));
    lemma_kt_fields_balanced(put_str(put_str(put_str(w13, "return "@), name), "("@), fields);
}

proof fn lemma_kt_variant_balanced(w: WriterState, v: NamedV<VariantFormatV>, context: Option<(Seq<char>, usize)>, encoding: Encoding)
    ensures
        same_indentation(w, kt_variant(w, v, context, encoding)),
{
    lemma_kt_doc_balanced(w, v.doc);
    match context {
        None => {},
        Some((interface, index)) => match v.value {
            VariantFormatV::Unit => lemma_kt_data_object_balanced(w, v.name, Some(interface), v.doc, encoding, Some(index)),
            VariantFormatV::NewType(f) => lemma_kt_data_class_balanced(
                w,
                v.name,
                Some(interface),
                kt_value_field(f),
                v.doc,
                encoding,
                Some(index),
            ),
            VariantFormatV::Tuple(s) => lemma_kt_data_class_balanced(w, v.name, Some(interface), kt_named(s), v.doc, encoding, Some(index)),
            VariantFormatV::Struct(fs) => lemma_kt_data_class_balanced(w, v.name, Some(interface), fs, v.doc, encoding, Some(index)),
        },
    }
}

proof fn lemma_kt_enum_lists_balanced(w: WriterState, variants: Seq<(u32, NamedV<VariantFormatV>)>, encoding: Encoding)
    ensures
        same_indentation(w, kt_enum_entries(w, variants, encoding)),
        same_indentation(w, kt_enum_cases(w, variants, encoding)),
    decreases variants.len(),
{
    if variants.len() > 0 {
        let rest = variants.drop_last();
        let (i, v) = variants.last();
        lemma_kt_enum_lists_balanced(w, rest, encoding);
        let a = kt_enum_entries(w, rest, encoding);
        lemma_kt_variant_balanced(if i > 0 { put_line(a, ","@) } else { a }, v, None, encoding);
        let b = put_str(put_str(kt_enum_cases(w, rest, encoding), decimal(i as nat)), " -> "@);
        lemma_kt_variant_balanced(b, NamedV { name: v.name, doc: Seq::empty(), value: v.value }, None, encoding);
    }
}

proof fn lemma_kt_enum_class_balanced(
    w: WriterState,
    name: Seq<char>,
    variants: Seq<(u32, NamedV<VariantFormatV>)>,
    doc: Seq<Seq<char>>,
    encoding: Encoding,
)
    ensures
        same_indentation(w, kt_enum_class(w, name, variants, doc, encoding)),
{
    lemma_kt_doc_balanced(w, doc);
    let w1 = indented(put_line(put_str(put_str(kt_json_header(kt_doc(w, doc), encoding, name), "enum class "@), name), " {"@));
    lemma_kt_enum_lists_balanced(w1, variants, encoding);
    let w2 = put_newline(put_line(kt_enum_entries(w1, variants, encoding), ";"@));
    let w3 = block_opened(put_str(w2, "fun serialize(serializer: Serializer) "@));
    let w4 = kt_pop_ser(put_line(kt_push_ser(w3), "serializer.serialize_variant_index(ordinal)"@));
    let w5 = put_newline(kt_bincode_serialize(put_newline(block_closed(w4))));
    let w6 = put_line(block_opened(put_str(w5, "companion object "@)), "@Throws(DeserializationError::class)"@);
    let w7 = block_opened(put_str(put_str(put_str(w6, "fun deserialize(deserializer: Deserializer): "@), name), " "@));
    let w8 = kt_pop_deser(put_line(kt_push_deser(w7), "val index = deserializer.deserialize_variant_index()"@));
    let w9 = block_opened(put_str(w8, "return when (index) "@));
    lemma_kt_enum_lists_balanced(w9, variants, encoding);
}

proof fn lemma_kt_sealed_lists_balanced(w: WriterState, name: Seq<char>, variants: Seq<NamedV<VariantFormatV>>, encoding: Encoding)
    ensures
        same_indentation(w, kt_sealed_members(w, name, variants, encoding)),
        same_indentation(w, kt_sealed_cases(w, variants)),
    decreases variants.len(),
{
    if variants.len() > 0 {
        let index = (variants.len() - 1) as usize;
        let rest = variants.drop_last();
        lemma_kt_sealed_lists_balanced(w, name, rest, encoding);
        let a = kt_sealed_members(w, name, rest, encoding);
        lemma_kt_variant_balanced(if index > 0 { put_newline(a) } else { a }, variants.last(), Some((name, index)), encoding);
    }
}

proof fn lemma_kt_sealed_interface_balanced(
    w: WriterState,
    name: Seq<char>,
    variants: Seq<NamedV<VariantFormatV>>,
    doc: Seq<Seq<char>>,
    encoding: Encoding,
)
    ensures
        same_indentation(w, kt_sealed_interface(w, name, variants, doc, encoding)),
{
    lemma_kt_doc_balanced(w, doc);
    let w1 = block_opened(put_str(put_str(put_str(kt_json_header(kt_doc(w, doc), encoding, name), "sealed interface "@), name), " "@));
    let w2 = if encoding == Encoding::Bincode {
        put_newline(kt_bincode_serialize(put_newline(put_line(w1, "fun serialize(serializer: Serializer)"@))))
    } else {
        w1
    };
    lemma_kt_sealed_lists_balanced(w2, name, variants, encoding);
    if encoding == Encoding::Bincode {
        let w3 = kt_sealed_members(w2, name, variants, encoding);
        let c1 = put_line(block_opened(put_str(put_newline(w3), "companion object "@)), "@Throws(DeserializationError::class)"@);
        let c2 = block_opened(put_str(put_str(put_str(c1, "fun deserialize(deserializer: Deserializer): "@), name), " "@));
        let c3 = block_opened(put_str(put_line(c2, "val index = deserializer.deserialize_variant_index()"@), "return when (index) "@));
        lemma_kt_sealed_lists_balanced(c3, name, variants, encoding);
    }
}

/// Every block that a type definition opens, it closes: writing it leaves the indentation
/// as it found it.
pub proof fn lemma_kt_container_balanced(w: WriterState, encoding: Encoding, name: Seq<char>, c: ContainerFormatV)
    ensures
        same_indentation(w, kt_container(w, encoding, name, c)),
{
    match c {
        ContainerFormatV::UnitStruct(doc) => lemma_kt_data_object_balanced(w, name, None, doc, encoding, None),
        ContainerFormatV::NewTypeStruct(f, doc) => {
            lemma_kt_data_class_balanced(w, name, None, kt_value_field(f), doc, encoding, None);
            lemma_kt_doc_balanced(w, doc);
            lemma_put_line_keeps_indentation(kt_doc(w, doc), "typealias "@ + name + " = "@ + kt_type(f));
        },
        ContainerFormatV::TupleStruct(s, doc) => lemma_kt_data_class_balanced(w, name, None, kt_named(s), doc, encoding, None),
        ContainerFormatV::Struct(fs, doc) => {
            lemma_kt_data_object_balanced(w, name, None, doc, encoding, None);
            lemma_kt_data_class_balanced(w, name, None, fs, doc, encoding, None);
        },
        ContainerFormatV::Enum(vs, doc) => {
            if all_unit(vs) {
                lemma_kt_enum_class_balanced(w, name, vs, doc, encoding);
            } else {
                lemma_kt_sealed_interface_balanced(w, name, variant_values(vs), doc, encoding);
            }
        },
    }
}

/// The lines `index -> ENTRY` of the variants, each after the indentation `ind`.
pub open spec fn kt_case_lines(ind: Seq<char>, vs: Seq<(u32, NamedV<VariantFormatV>)>) -> Seq<char>
    decreases vs.len(),
{
    if vs.len() == 0 {
        Seq::empty()
    } else {
        kt_case_lines(ind, vs.drop_last()) + ind + decimal(vs.last().0 as nat) + " -> "@ + uppercase(vs.last().1.name) + "\n"@
    }
}

/// Whether the name of every entry is one line.
pub open spec fn one_line_entries(vs: Seq<(u32, NamedV<VariantFormatV>)>) -> bool {
    forall|k: int| 0 <= k < vs.len() ==> !uppercase((#[trigger] vs[k]).1.name).contains('\n')
}

proof fn lemma_kt_enum_cases_text(w: WriterState, vs: Seq<(u32, NamedV<VariantFormatV>)>)
    requires
        w.at_line_start,
        one_line_entries(vs),
    ensures
        kt_enum_cases(w, vs, Encoding::Bincode) == (WriterState { text: w.text + kt_case_lines(w.indentation, vs), ..w }),
    decreases vs.len(),
{
    if vs.len() == 0 {
        assert(w.text + kt_case_lines(w.indentation, vs) =~= w.text);
    } else {
        let rest = vs.drop_last();
        assert(one_line_entries(rest)) by {
            assert forall|k: int| 0 <= k < rest.len() implies !uppercase((#[trigger] rest[k]).1.name).contains('\n') by {
                assert(rest[k] == vs[k]);
            }
        }
        lemma_kt_enum_cases_text(w, rest);
        let a = kt_enum_cases(w, rest, Encoding::Bincode);
        let (i, v) = vs.last();
        assert(vs.last() == vs[vs.len() - 1]);
        let d = decimal(i as nat);
        let u = uppercase(v.name);
        reveal_strlit(" -> ");
        reveal_strlit("\n");
        lemma_decimal_one_line(i as nat);
        lemma_concat_lacks(d, " -> "@, '\n');
        lemma_concat_lacks(d + " -> "@, u, '\n');
        let line = d + " -> "@ + u;
        lemma_put_line_at_start(a, line);
        let c = put_str(put_str(a, d), " -> "@);
        let e = NamedV { name: v.name, doc: Seq::<Seq<char>>::empty(), value: v.value };
        assert(kt_doc(c, e.doc) == c);
        lemma_put_str_concat(a, d, " -> "@);
        lemma_put_str_concat(a, d + " -> "@, u);
        lemma_put_str_concat(a, line, seq!['\n']);
        lemma_put_str_single(put_str(a, line), '\n');
        assert(line.push('\n') =~= line + seq!['\n']);
        assert(kt_enum_cases(w, vs, Encoding::Bincode) == put_line(a, line));
        assert(a.text + a.indentation + line + seq!['\n'] =~= w.text + kt_case_lines(w.indentation, vs));
    }
}

/// A line written at the start of a line, with its indentation.
proof fn lemma_line_at(w: WriterState, s: Seq<char>)
    requires
        w.at_line_start,
        s.len() > 0,
        !s.contains('\n'),
    ensures
        put_line(w, s) == (WriterState { text: w.text + w.indentation + s + seq!['\n'], ..w }),
{
    lemma_put_line_at_start(w, s);
}

/// A block opened at the start of a line: its header and `{` on one line, then one level
/// deeper.
proof fn lemma_block_at(w: WriterState, h: Seq<char>)
    requires
        w.at_line_start,
        !h.contains('\n'),
    ensures
        block_opened(put_str(w, h)) == (WriterState {
            text: w.text + w.indentation + h + seq!['{', '\n'],
            indentation: w.indentation + w.unit,
            unit: w.unit,
            at_line_start: true,
        }),
{
    lemma_concat_lacks(h, seq!['{'], '\n');
    lemma_put_str_concat(w, h, seq!['{', '\n']);
    assert((h + seq!['{']).push('\n') =~= h + seq!['{', '\n']);
    assert(seq!['{'].push('\n') =~= seq!['{', '\n']);
    lemma_put_line_at_start(w, h + seq!['{']);
    assert(w.text + w.indentation + (h + seq!['{']) + seq!['\n'] =~= w.text + w.indentation + h + seq!['{', '\n']);
}

proof fn lemma_kt_serialize_method(w: WriterState)
    requires
        w.at_line_start,
    ensures
        ({
            let j = w.indentation;
            let j2 = j + w.unit;
            let v = block_closed(kt_pop_ser(put_line(kt_push_ser(block_opened(put_str(w, "fun serialize(serializer: Serializer) "@))), "serializer.serialize_variant_index(ordinal)"@)));
            &&& v.text == w.text + (j + "fun serialize(serializer: Serializer) {\n"@ + j2 + "serializer.increase_container_depth()\n"@ + j2
                + "serializer.serialize_variant_index(ordinal)\n"@ + j2 + "serializer.decrease_container_depth()\n"@ + j + "}\n"@)
            &&& v.indentation == j
            &&& v.unit == w.unit
            &&& v.at_line_start
        }),
{
    let j = w.indentation;
    let u = w.unit;
    let j2 = j + u;
    reveal_strlit("fun serialize(serializer: Serializer) ");
    reveal_strlit("fun serialize(serializer: Serializer) {\n");
    reveal_strlit("serializer.increase_container_depth()");
    reveal_strlit("serializer.increase_container_depth()\n");
    reveal_strlit("serializer.serialize_variant_index(ordinal)");
    reveal_strlit("serializer.serialize_variant_index(ordinal)\n");
    reveal_strlit("serializer.decrease_container_depth()");
    reveal_strlit("serializer.decrease_container_depth()\n");
    reveal_strlit("}\n");
    let h = "fun serialize(serializer: Serializer) "@;
    lemma_block_at(w, h);
    let a = block_opened(put_str(w, h));
    let l1 = "serializer.increase_container_depth()"@;
    let l2 = "serializer.serialize_variant_index(ordinal)"@;
    let l3 = "serializer.decrease_container_depth()"@;
    lemma_line_at(a, l1);
    let b = put_line(a, l1);
    lemma_line_at(b, l2);
    let c = put_line(b, l2);
    lemma_line_at(c, l3);
    let d = put_line(c, l3);
    assert(j2.take(j.len() as int) =~= j);
    let e = unindented(d);
    assert(e == (WriterState { text: d.text, indentation: j, unit: u, at_line_start: true }));
    lemma_line_at(e, seq!['}']);
    assert(w.text + j + h + seq!['{', '\n'] + j2 + l1 + seq!['\n'] + j2 + l2 + seq!['\n'] + j2 + l3 + seq!['\n'] + j + seq!['}'] + seq!['\n'] =~= w.text
        + (j + "fun serialize(serializer: Serializer) {\n"@ + j2 + "serializer.increase_container_depth()\n"@ + j2
        + "serializer.serialize_variant_index(ordinal)\n"@ + j2 + "serializer.decrease_container_depth()\n"@ + j + "}\n"@));
}

proof fn lemma_kt_deserialize_index(w: WriterState, variants: Seq<(u32, NamedV<VariantFormatV>)>)
    requires
        w.at_line_start,
        one_line_entries(variants),
    ensures
        ({
            let j = w.indentation;
            let v = kt_enum_cases(
                block_opened(put_str(kt_pop_deser(put_line(kt_push_deser(w), "val index = deserializer.deserialize_variant_index()"@)), "return when (index) "@)),
                variants,
                Encoding::Bincode,
            );
            v.text == w.text + (j + "deserializer.increase_container_depth()\n"@ + j + "val index = deserializer.deserialize_variant_index()\n"@ + j
                + "deserializer.decrease_container_depth()\n"@ + j + "return when (index) {\n"@ + kt_case_lines(j + w.unit, variants))
        }),
{
    let j = w.indentation;
    reveal_strlit("deserializer.increase_container_depth()");
    reveal_strlit("deserializer.increase_container_depth()\n");
    reveal_strlit("val index = deserializer.deserialize_variant_index()");
    reveal_strlit("val index = deserializer.deserialize_variant_index()\n");
    reveal_strlit("deserializer.decrease_container_depth()");
    reveal_strlit("deserializer.decrease_container_depth()\n");
    reveal_strlit("return when (index) ");
    reveal_strlit("return when (index) {\n");
    let l1 = "deserializer.increase_container_depth()"@;
    let l2 = "val index = deserializer.deserialize_variant_index()"@;
    let l3 = "deserializer.decrease_container_depth()"@;
    let r = "return when (index) "@;
    lemma_line_at(w, l1);
    let a = put_line(w, l1);
    lemma_line_at(a, l2);
    let b = put_line(a, l2);
    lemma_line_at(b, l3);
    let c = put_line(b, l3);
    lemma_block_at(c, r);
    let d = block_opened(put_str(c, r));
    lemma_kt_enum_cases_text(d, variants);
    assert(w.text + j + l1 + seq!['\n'] + j + l2 + seq!['\n'] + j + l3 + seq!['\n'] + j + r + seq!['{', '\n'] + kt_case_lines(j + w.unit, variants)
        =~= w.text + (j + "deserializer.increase_container_depth()\n"@ + j + "val index = deserializer.deserialize_variant_index()\n"@ + j
        + "deserializer.decrease_container_depth()\n"@ + j + "return when (index) {\n"@ + kt_case_lines(j + w.unit, variants)));
}

/// The text between the end of the serializer and the start of the deserializer's body
/// only appends, and leaves the writer at the start of a line two levels deeper.
proof fn lemma_kt_enum_class_middle(s4: WriterState, name: Seq<char>)
    ensures
        ({
            let w5 = put_newline(kt_bincode_serialize(put_newline(s4)));
            let w6 = put_line(block_opened(put_str(w5, "companion object "@)), "@Throws(DeserializationError::class)"@);
            let w7 = block_opened(put_str(put_str(put_str(w6, "fun deserialize(deserializer: Deserializer): "@), name), " "@));
            &&& text_grows(s4, w7)
            &&& w7.indentation == s4.indentation + s4.unit + s4.unit
            &&& w7.unit == s4.unit
            &&& w7.at_line_start
        }),
{
    broadcast use {lemma_put_str_grows, crate::generation::indent::lemma_put_str_keeps_indentation};
    let t1 = put_newline(s4);
    lemma_put_str_single(s4, '\n');
    let t2 = kt_bincode_serialize(t1);
    let w5 = put_newline(t2);
    lemma_put_str_single(t2, '\n');
    lemma_put_str_grows(s4, seq!['\n']);
    lemma_put_str_grows(t2, seq!['\n']);
    lemma_text_grows_trans(s4, t1, t2);
    lemma_text_grows_trans(s4, t2, w5);
    let t3 = put_str(w5, "companion object "@);
    let t4 = block_opened(t3);
    lemma_put_str_grows(t3, seq!['{'].push('\n'));
    let w6 = put_line(t4, "@Throws(DeserializationError::class)"@);
    lemma_put_str_grows(t4, "@Throws(DeserializationError::class)"@.push('\n'));
    lemma_text_grows_trans(s4, w5, t3);
    lemma_text_grows_trans(s4, t3, t4);
    lemma_text_grows_trans(s4, t4, w6);
    let t5 = put_str(w6, "fun deserialize(deserializer: Deserializer): "@);
    let t6 = put_str(t5, name);
    let t7 = put_str(t6, " "@);
    let w7 = block_opened(t7);
    lemma_put_str_grows(t7, seq!['{'].push('\n'));
    lemma_text_grows_trans(s4, w6, t5);
    lemma_text_grows_trans(s4, t5, t6);
    lemma_text_grows_trans(s4, t6, t7);
    lemma_text_grows_trans(s4, t7, w7);
    lemma_put_line_ends_line(t7, seq!['{']);
}

/// The text after the deserializer's cases only appends.
proof fn lemma_kt_enum_class_tail(c: WriterState, name: Seq<char>)
    ensures
        ({
            let c1 = kt_unknown_variant(c, name);
            let c5 = kt_bincode_deserialize(put_newline(block_closed(block_closed(c1))), name);
            text_grows(c, put_line(unindented(block_closed(c5)), "}"@))
        }),
{
    broadcast use lemma_put_str_grows;
    let c1a = put_str(c, "else -> throw DeserializationError(\"Unknown variant index for "@);
    let c1b = put_str(c1a, name);
    let c1 = kt_unknown_variant(c, name);
    lemma_put_str_grows(c1b, ": $index\")"@.push('\n'));
    lemma_text_grows_trans(c, c1a, c1b);
    lemma_text_grows_trans(c, c1b, c1);
    let c2 = block_closed(c1);
    lemma_put_str_grows(unindented(c1), seq!['}'].push('\n'));
    let c3 = block_closed(c2);
    lemma_put_str_grows(unindented(c2), seq!['}'].push('\n'));
    let c4 = put_newline(c3);
    lemma_put_str_single(c3, '\n');
    lemma_put_str_grows(c3, seq!['\n']);
    let c5a = put_str(c4, BINCODE_DESERIALIZE_HEAD@);
    let c5b = put_str(c5a, name);
    let c5 = kt_bincode_deserialize(c4, name);
    let c6 = block_closed(c5);
    lemma_put_str_grows(unindented(c5), seq!['}'].push('\n'));
    let c7 = put_line(unindented(c6), "}"@);
    lemma_put_str_grows(unindented(c6), "}"@.push('\n'));
    lemma_text_grows_trans(c, c1, c2);
    lemma_text_grows_trans(c, c2, c3);
    lemma_text_grows_trans(c, c3, c4);
    lemma_text_grows_trans(c, c4, c5a);
    lemma_text_grows_trans(c, c5a, c5b);
    lemma_text_grows_trans(c, c5b, c5);
    lemma_text_grows_trans(c, c5, c6);
    lemma_text_grows_trans(c, c6, c7);
}

/// Under Bincode an enum class encodes an entry by its variant index and decodes it from
/// there: its `serialize` method writes the entry's `ordinal` as the variant index, and
/// nothing else, inside one container level; its `deserialize` function reads a variant
/// index inside one container level and maps the index of each variant to that variant's
/// entry, in variant order.
pub proof fn lemma_kt_enum_class_variant_index(
    w: WriterState,
    name: Seq<char>,
    variants: Seq<(u32, NamedV<VariantFormatV>)>,
    doc: Seq<Seq<char>>,
)
    requires
        one_line_entries(variants),
    ensures
        ({
            let text = kt_enum_class(w, name, variants, doc, Encoding::Bincode).text;
            let j = w.indentation + w.unit;
            let j2 = j + w.unit;
            let j3 = j2 + w.unit;
            let ser = j + "fun serialize(serializer: Serializer) {\n"@ + j2 + "serializer.increase_container_depth()\n"@ + j2
                + "serializer.serialize_variant_index(ordinal)\n"@ + j2 + "serializer.decrease_container_depth()\n"@ + j + "}\n"@;
            let de = j3 + "deserializer.increase_container_depth()\n"@ + j3 + "val index = deserializer.deserialize_variant_index()\n"@ + j3
                + "deserializer.decrease_container_depth()\n"@ + j3 + "return when (index) {\n"@ + kt_case_lines(j3 + w.unit, variants);
            &&& exists|p: int| 0 <= p && p + ser.len() <= text.len() && #[trigger] text.subrange(p, p + ser.len()) == ser
            &&& exists|q: int| 0 <= q && q + de.len() <= text.len() && #[trigger] text.subrange(q, q + de.len()) == de
        }),
{
    let e = Encoding::Bincode;
    let u = w.unit;
    let j = w.indentation + u;
    let j2 = j + u;
    let j3 = j2 + u;
    lemma_kt_doc_balanced(w, doc);
    let w1 = indented(put_line(put_str(put_str(kt_json_header(kt_doc(w, doc), e, name), "enum class "@), name), " {"@));
    lemma_kt_enum_lists_balanced(w1, variants, e);
    let w2 = put_newline(put_line(kt_enum_entries(w1, variants, e), ";"@));
    assert(w2.indentation == j && w2.unit == u && w2.at_line_start);
    lemma_kt_serialize_method(w2);
    let s4 = block_closed(kt_pop_ser(put_line(kt_push_ser(block_opened(put_str(w2, "fun serialize(serializer: Serializer) "@))), "serializer.serialize_variant_index(ordinal)"@)));
    let ser = j + "fun serialize(serializer: Serializer) {\n"@ + j2 + "serializer.increase_container_depth()\n"@ + j2
        + "serializer.serialize_variant_index(ordinal)\n"@ + j2 + "serializer.decrease_container_depth()\n"@ + j + "}\n"@;
    assert(s4.text == w2.text + ser);
    lemma_kt_enum_class_middle(s4, name);
    let w5 = put_newline(kt_bincode_serialize(put_newline(s4)));
    let w6 = put_line(block_opened(put_str(w5, "companion object "@)), "@Throws(DeserializationError::class)"@);
    let w7 = block_opened(put_str(put_str(put_str(w6, "fun deserialize(deserializer: Deserializer): "@), name), " "@));
    lemma_kt_deserialize_index(w7, variants);
    let c = kt_enum_cases(
        block_opened(put_str(kt_pop_deser(put_line(kt_push_deser(w7), "val index = deserializer.deserialize_variant_index()"@)), "return when (index) "@)),
        variants,
        e,
    );
    let de = j3 + "deserializer.increase_container_depth()\n"@ + j3 + "val index = deserializer.deserialize_variant_index()\n"@ + j3
        + "deserializer.decrease_container_depth()\n"@ + j3 + "return when (index) {\n"@ + kt_case_lines(j3 + u, variants);
    assert(c.text == w7.text + de);
    lemma_kt_enum_class_tail(c, name);
    let final_state = kt_enum_class(w, name, variants, doc, e);
    assert(text_grows(c, final_state));
    assert(text_grows(w7, c)) by {
        assert(c.text.subrange(0, w7.text.len() as int) =~= w7.text);
    }
    lemma_text_grows_trans(s4, w7, c);
    lemma_text_grows_trans(s4, c, final_state);
    let text = final_state.text;
    let p = w2.text.len() as int;
    assert(text.subrange(p, p + ser.len()) == ser) by {
        assert(text.subrange(p, p + ser.len()) =~= text.subrange(0, s4.text.len() as int).subrange(p, p + ser.len()));
        assert(s4.text.subrange(p, p + ser.len()) =~= ser);
    }
    let q = w7.text.len() as int;
    assert(text.subrange(q, q + de.len()) == de) by {
        assert(text.subrange(q, q + de.len()) =~= text.subrange(0, c.text.len() as int).subrange(q, q + de.len()));
        assert(c.text.subrange(q, q + de.len()) =~= de);
    }
}

} // verus!
