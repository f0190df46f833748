//! Swift emitter for plain value types: `Hashable` structs and enums, with optional JSON
//! serialization of primitive and tuple fields.
use vstd::prelude::*;

use crate::case::{lower_camel_case, to_lower_camel_case};
use crate::generation::common::{primitive_name, primitive_name_str};
use crate::generation::config::Encoding;
use crate::generation::indent::{block_closed, block_opened, decimal, indented, lemma_indented_prefix, lemma_put_line_keeps_indentation, lemma_put_newline_keeps_indentation, lemma_put_str_same_indentation, put_line, put_newline, put_str, same_indentation, unindented, usize_to_string, IndentedWriter, WriterState};
use crate::generation::swift::emitter::{args_text, named, sw_args, sw_named, sw_names, variant_values, without_doc};
use crate::reflection::format::{formats_view, lemma_formats_view, seq_view, ContainerFormat, ContainerFormatV, Doc, Format, FormatV, Named, NamedV, QualifiedTypeName, VariantFormat, VariantFormatV, VariantMap};
use crate::util::text::{concat, concat3, concat4, join_with, joined, strings_view};

verus! {

/// The language tag of this emitter.
#[derive(Debug, Clone, Copy)]
pub struct Swift;

/// The Swift type expression for `f`.
pub open spec fn s2_type(f: FormatV) -> Seq<char>
    decreases f,
{
    match f {
        FormatV::TypeName(q) => q.name,
        FormatV::Unit => "()"@,
        FormatV::Bool => "Bool"@,
        FormatV::I8 => "Int8"@,
        FormatV::I16 => "Int16"@,
        FormatV::I32 => "Int32"@,
        FormatV::I64 => "Int64"@,
        FormatV::I128 => "Int128"@,
        FormatV::U8 => "UInt8"@,
        FormatV::U16 => "UInt16"@,
        FormatV::U32 => "UInt32"@,
        FormatV::U64 => "UInt64"@,
        FormatV::U128 => "UInt128"@,
        FormatV::F32 => "Float"@,
        FormatV::F64 => "Double"@,
        FormatV::Char => "Character"@,
        FormatV::Str => "String"@,
        FormatV::Bytes => "Array<UInt8>"@,
        FormatV::Option(g) => s2_type(*g) + "?"@,
        FormatV::Sequence(g) => "Array<"@ + s2_type(*g) + ">"@,
        FormatV::TupleArray { content, size: _ } => "Array<"@ + s2_type(*content) + ">"@,
        FormatV::SetOf(g) => "Set<"@ + s2_type(*g) + ">"@,
        FormatV::MapOf { key, value } => "Dictionary<"@ + s2_type(*key) + ", "@ + s2_type(*value) + ">"@,
        FormatV::Tuple(s) => if s.len() == 1 {
            s2_type_list(s)
        } else {
            "("@ + s2_type_list(s) + ")"@
        },
    }
}

/// The Swift types of `s`, separated by `", "`.
pub open spec fn s2_type_list(s: Seq<FormatV>) -> Seq<char>
    decreases s,
{
    if s.len() == 0 {
        Seq::empty()
    } else if s.len() == 1 {
        s2_type(s.last())
    } else {
        s2_type_list(s.drop_last()) + ", "@ + s2_type(s.last())
    }
}

/// The Swift type expression for a format.
pub fn write_format(f: &Format) -> (r: String)
    ensures
        r@ == s2_type(f@),
    decreases f, 0nat,
{
    match f {
        Format::TypeName(q) => q.name.clone(),
        Format::Unit => String::from_str("()"),
        Format::Bool => String::from_str("Bool"),
        Format::I8 => String::from_str("Int8"),
        Format::I16 => String::from_str("Int16"),
        Format::I32 => String::from_str("Int32"),
        Format::I64 => String::from_str("Int64"),
        Format::I128 => String::from_str("Int128"),
        Format::U8 => String::from_str("UInt8"),
        Format::U16 => String::from_str("UInt16"),
        Format::U32 => String::from_str("UInt32"),
        Format::U64 => String::from_str("UInt64"),
        Format::U128 => String::from_str("UInt128"),
        Format::F32 => String::from_str("Float"),
        Format::F64 => String::from_str("Double"),
        Format::Char => String::from_str("Character"),
        Format::Str => String::from_str("String"),
        Format::Bytes => String::from_str("Array<UInt8>"),
        Format::Option(g) => concat(write_format(g).as_str(), "?"),
        Format::Sequence(g) => concat3("Array<", write_format(g).as_str(), ">"),
        Format::TupleArray { content, size: _ } => concat3("Array<", write_format(content).as_str(), ">"),
        Format::SetOf(g) => concat3("Set<", write_format(g).as_str(), ">"),
        Format::MapOf { key, value } => {
            let mut r = concat4("Dictionary<", write_format(key).as_str(), ", ", write_format(value).as_str());
            r.append(">");
            r
        },
        Format::Tuple(v) => {
            proof {
                lemma_formats_view(v@);
            }
            if v.len() == 1 {
                type_list(v)
            } else {
                concat3("(", type_list(v).as_str(), ")")
            }
        },
    }
}

fn type_list(v: &Vec<Format>) -> (r: String)
    ensures
        r@ == s2_type_list(formats_view(v@)),
    decreases v@, 1nat,
{
    let mut out = String::new();
    let mut i: usize = 0;
    proof {
        assert(v@.take(0) =~= Seq::<Format>::empty());
    }
    while i < v.len()
        invariant
            i <= v.len(),
            out@ == s2_type_list(formats_view(v@.take(i as int))),
        decreases v.len() - i,
    {
        proof {
            assert(decreases_to!(v@ => v@[i as int]));
            assert(v@.take(i + 1).drop_last() =~= v@.take(i as int));
        }
        let ghost before = out@;
        if i > 0 {
            out.append(", ");
        }
        let t = write_format(&v[i]);
        out.append(t.as_str());
        proof {
            let s = formats_view(v@.take(i + 1));
            lemma_formats_view(v@.take(i + 1));
            lemma_formats_view(v@.take(i as int));
            assert(s.len() == i + 1);
            assert(s.drop_last() == formats_view(v@.take(i as int)));
            assert(s.last() == v@[i as int]@);
            if i == 0 {
                assert(before.len() == 0);
                assert(out@ =~= t@);
            } else {
                assert(out@ =~= before + ", "@ + t@);
            }
        }
        i = i + 1;
    }
    assert(v@.take(v.len() as int) =~= v@);
    out
}

/// Documentation comments, one `///` line each.
pub open spec fn s2_doc(w: WriterState, doc: Seq<Seq<char>>) -> WriterState
    decreases doc.len(),
{
    if doc.len() == 0 {
        w
    } else {
        put_line(s2_doc(w, doc.drop_last()), "/// "@ + doc.last())
    }
}

/// Writes documentation comments.
pub fn write_doc(doc: &Doc, w: &mut IndentedWriter)
    ensures
        final(w)@ == s2_doc(old(w)@, doc@),
{
    let comments = doc.comments();
    let mut i: usize = 0;
    assert(seq_view(comments@).take(0) =~= Seq::<Seq<char>>::empty());
    while i < comments.len()
        invariant
            i <= comments.len(),
            seq_view(comments@) == doc@,
            w@ == s2_doc(old(w)@, doc@.take(i as int)),
        decreases comments.len() - i,
    {
        w.write_line(concat("/// ", comments[i].as_str()).as_str());
        assert(doc@.take(i + 1).drop_last() =~= doc@.take(i as int));
        i = i + 1;
    }
    assert(doc@.take(comments.len() as int) =~= doc@);
}

/// Whether a field of format `f` can be serialized: named types, primitives and tuples of
/// those.
pub open spec fn s2_serializable(f: FormatV) -> bool
    decreases f,
{
    match f {
        FormatV::Option(_) | FormatV::Sequence(_) | FormatV::SetOf(_) | FormatV::MapOf { .. }
        | FormatV::TupleArray { .. } => false,
        FormatV::Tuple(s) => s2_all_serializable(s),
        _ => true,
    }
}

/// Whether every format of `s` can be serialized.
pub open spec fn s2_all_serializable(s: Seq<FormatV>) -> bool
    decreases s,
{
    if s.len() == 0 {
        true
    } else {
        s2_all_serializable(s.drop_last()) && s2_serializable(s.last())
    }
}

proof fn lemma_all_serializable(s: Seq<FormatV>, i: int)
    requires
        s2_all_serializable(s),
        0 <= i < s.len(),
    ensures
        s2_serializable(s[i]),
    decreases s.len(),
{
    if i < s.len() - 1 {
        lemma_all_serializable(s.drop_last(), i);
    }
}

pub open spec fn s2_push_ser(w: WriterState) -> WriterState {
    put_line(w, "try serializer.increase_container_depth()"@)
}

pub open spec fn s2_pop_ser(w: WriterState) -> WriterState {
    put_line(w, "try serializer.decrease_container_depth()"@)
}

pub open spec fn s2_push_deser(w: WriterState) -> WriterState {
    put_line(w, "try deserializer.increase_container_depth()"@)
}

pub open spec fn s2_pop_deser(w: WriterState) -> WriterState {
    put_line(w, "try deserializer.decrease_container_depth()"@)
}

/// Serializing the field `name` of `receiver`: a tuple element by element, each as a field
/// of the tuple, inside its own container.
pub open spec fn s2_field_serialize(w: WriterState, name: Seq<char>, value: FormatV, receiver: Seq<char>) -> WriterState
    decreases value, 1nat,
{
    let n = lower_camel_case(name);
    match value {
        FormatV::TypeName(_) => put_line(w, "try "@ + receiver + "."@ + n + ".serialize(serializer: serializer)"@),
        FormatV::Tuple(s) => s2_pop_ser(s2_tuple_serialize(s2_push_ser(w), s, n)),
        _ => put_line(w, "try serializer.serialize_"@ + primitive_name(value) + "(value: "@ + receiver + "."@ + n + ")"@),
    }
}

/// Serializing the elements of a tuple field, named `0`, `1`, ..., of `receiver`.
pub open spec fn s2_tuple_serialize(w: WriterState, s: Seq<FormatV>, receiver: Seq<char>) -> WriterState
    decreases s, 0nat,
{
    if s.len() == 0 {
        w
    } else {
        s2_field_serialize(s2_tuple_serialize(w, s.drop_last(), receiver), decimal((s.len() - 1) as nat), s.last(), receiver)
    }
}

/// Deserializing the field `name` into a constant of the same name.
pub open spec fn s2_field_deserialize(w: WriterState, name: Seq<char>, value: FormatV) -> WriterState
    decreases value, 1nat,
{
    let n = lower_camel_case(name);
    match value {
        FormatV::TypeName(q) => put_line(w, "let "@ + n + " = try "@ + q.name + ".deserialize(deserializer: deserializer)"@),
        FormatV::Tuple(s) => {
            let w = s2_tuple_deserialize(s2_push_deser(w), s, n);
            s2_pop_deser(put_line(w, "let "@ + n + " = ("@ + sw_names(n, s.len()) + ")"@))
        },
        _ => put_line(w, "let "@ + n + " = try deserializer.deserialize_"@ + primitive_name(value) + "()"@),
    }
}

/// Deserializing the elements of a tuple field into `prefix0`, `prefix1`, ...
pub open spec fn s2_tuple_deserialize(w: WriterState, s: Seq<FormatV>, prefix: Seq<char>) -> WriterState
    decreases s, 0nat,
{
    if s.len() == 0 {
        w
    } else {
        s2_field_deserialize(s2_tuple_deserialize(w, s.drop_last(), prefix), prefix + decimal((s.len() - 1) as nat), s.last())
    }
}

fn push_serializer(w: &mut IndentedWriter)
    ensures
        final(w)@ == s2_push_ser(old(w)@),
{
    w.write_line("try serializer.increase_container_depth()");
}

fn pop_serializer(w: &mut IndentedWriter)
    ensures
        final(w)@ == s2_pop_ser(old(w)@),
{
    w.write_line("try serializer.decrease_container_depth()");
}

fn push_deserializer(w: &mut IndentedWriter)
    ensures
        final(w)@ == s2_push_deser(old(w)@),
{
    w.write_line("try deserializer.increase_container_depth()");
}

fn pop_deserializer(w: &mut IndentedWriter)
    ensures
        final(w)@ == s2_pop_deser(old(w)@),
{
    w.write_line("try deserializer.decrease_container_depth()");
}

/// `prefix0, prefix1, ...`: `n` names.
fn names_text(prefix: &str, n: usize) -> (r: String)
    ensures
        r@ == sw_names(prefix@, n as nat),
{
    let mut out = String::new();
    let mut i: usize = 0;
    while i < n
        invariant
            i <= n,
            out@ == sw_names(prefix@, i as nat),
        decreases n - i,
    {
        let ghost before = out@;
        if i > 0 {
            out.append(", ");
        }
        out.append(prefix);
        out.append(usize_to_string(i).as_str());
        proof {
            if i == 0 {
                assert(out@ =~= prefix@ + decimal(0));
            } else {
                assert(out@ =~= before + ", "@ + prefix@ + decimal(i as nat));
            }
        }
        i = i + 1;
    }
    out
}

fn write_field_serialize(w: &mut IndentedWriter, name: &str, value: &Format, receiver: &str)
    requires
        s2_serializable(value@),
    ensures
        final(w)@ == s2_field_serialize(old(w)@, name@, value@, receiver@),
    decreases value, 1nat,
{
    let n = to_lower_camel_case(name);
    match value {
        Format::TypeName(_) => {
            let mut line = concat4("try ", receiver, ".", n.as_str());
            line.append(".serialize(serializer: serializer)");
            w.write_line(line.as_str());
        },
        Format::Tuple(v) => {
            proof {
                lemma_formats_view(v@);
                assert(formats_view(v@).len() == v.len());
            }
            push_serializer(w);
            write_tuple_serialize(w, v, n.as_str());
            pop_serializer(w);
        },
        _ => {
            let mut line = concat4("try serializer.serialize_", primitive_name_str(value), "(value: ", receiver);
            line.append(".");
            line.append(n.as_str());
            line.append(")");
            w.write_line(line.as_str());
        },
    }
}

fn write_tuple_serialize(w: &mut IndentedWriter, v: &Vec<Format>, receiver: &str)
    requires
        s2_all_serializable(formats_view(v@)),
    ensures
        final(w)@ == s2_tuple_serialize(old(w)@, formats_view(v@), receiver@),
    decreases v@, 0nat,
{
    let mut i: usize = 0;
    assert(formats_view(v@.take(0)) =~= Seq::<FormatV>::empty());
    proof {
        lemma_formats_view(v@);
    }
    while i < v.len()
        invariant
            i <= v.len(),
            formats_view(v@) == seq_view(v@),
            s2_all_serializable(formats_view(v@)),
            w@ == s2_tuple_serialize(old(w)@, formats_view(v@.take(i as int)), receiver@),
        decreases v.len() - i,
    {
        proof {
            assert(decreases_to!(v@ => v@[i as int]));
            lemma_all_serializable(formats_view(v@), i as int);
        }
        write_field_serialize(w, usize_to_string(i).as_str(), &v[i], receiver);
        proof {
            let s = formats_view(v@.take(i + 1));
            lemma_formats_view(v@.take(i + 1));
            lemma_formats_view(v@.take(i as int));
            assert(s.drop_last() == formats_view(v@.take(i as int)));
            assert(s.last() == v@[i as int]@);
        }
        i = i + 1;
    }
    assert(v@.take(v.len() as int) =~= v@);
}

fn write_field_deserialize(w: &mut IndentedWriter, name: &str, value: &Format)
    requires
        s2_serializable(value@),
    ensures
        final(w)@ == s2_field_deserialize(old(w)@, name@, value@),
    decreases value, 1nat,
{
    let n = to_lower_camel_case(name);
    match value {
        Format::TypeName(q) => {
            let mut line = concat4("let ", n.as_str(), " = try ", q.name.as_str());
            line.append(".deserialize(deserializer: deserializer)");
            w.write_line(line.as_str());
        },
        Format::Tuple(v) => {
            proof {
                lemma_formats_view(v@);
                assert(formats_view(v@).len() == v.len());
            }
            push_deserializer(w);
            write_tuple_deserialize(w, v, n.as_str());
            let mut line = concat4("let ", n.as_str(), " = (", names_text(n.as_str(), v.len()).as_str());
            line.append(")");
            w.write_line(line.as_str());
            pop_deserializer(w);
        },
        _ => {
            let mut line = concat4("let ", n.as_str(), " = try deserializer.deserialize_", primitive_name_str(value));
            line.append("()");
            w.write_line(line.as_str());
        },
    }
}

fn write_tuple_deserialize(w: &mut IndentedWriter, v: &Vec<Format>, prefix: &str)
    requires
        s2_all_serializable(formats_view(v@)),
    ensures
        final(w)@ == s2_tuple_deserialize(old(w)@, formats_view(v@), prefix@),
    decreases v@, 0nat,
{
    let mut i: usize = 0;
    assert(formats_view(v@.take(0)) =~= Seq::<FormatV>::empty());
    proof {
        lemma_formats_view(v@);
    }
    while i < v.len()
        invariant
            i <= v.len(),
            formats_view(v@) == seq_view(v@),
            s2_all_serializable(formats_view(v@)),
            w@ == s2_tuple_deserialize(old(w)@, formats_view(v@.take(i as int)), prefix@),
        decreases v.len() - i,
    {
        proof {
            assert(decreases_to!(v@ => v@[i as int]));
            lemma_all_serializable(formats_view(v@), i as int);
        }
        write_field_deserialize(w, concat(prefix, usize_to_string(i).as_str()).as_str(), &v[i]);
        proof {
            let s = formats_view(v@.take(i + 1));
            lemma_formats_view(v@.take(i + 1));
            lemma_formats_view(v@.take(i as int));
            assert(s.drop_last() == formats_view(v@.take(i as int)));
            assert(s.last() == v@[i as int]@);
        }
        i = i + 1;
    }
    assert(v@.take(v.len() as int) =~= v@);
}

} // verus!

verus! {

/// How a field is written.
pub enum Usage {
    /// A stored property.
    Field,
    /// A parameter: `name: Type`.
    Parameter,
    /// An argument: `name: name`.
    Argument,
    /// An assignment in an initializer.
    Assignment,
    /// Serializing the field of `receiver`.
    Serialize { receiver: String },
    /// Deserializing the field into a constant.
    Deserialize { receiver: String },
}

/// Model of a [`Usage`].
pub enum UsageV {
    Field,
    Parameter,
    Argument,
    Assignment,
    Serialize { receiver: Seq<char> },
    Deserialize,
}

impl View for Usage {
    type V = UsageV;

    open spec fn view(&self) -> UsageV {
        match self {
            Usage::Field => UsageV::Field,
            Usage::Parameter => UsageV::Parameter,
            Usage::Argument => UsageV::Argument,
            Usage::Assignment => UsageV::Assignment,
            Usage::Serialize { receiver } => UsageV::Serialize { receiver: receiver@ },
            Usage::Deserialize { .. } => UsageV::Deserialize,
        }
    }
}

/// A field written for a usage.
pub open spec fn s2_named(w: WriterState, n: NamedV<FormatV>, usage: UsageV) -> WriterState {
    let name = lower_camel_case(n.name);
    match usage {
        UsageV::Field => put_line(s2_doc(w, n.doc), "public var "@ + name + ": "@ + s2_type(n.value)),
        UsageV::Parameter => put_str(w, name + ": "@ + s2_type(n.value)),
        UsageV::Argument => put_str(w, name + ": "@ + name),
        UsageV::Assignment => put_line(w, "self."@ + name + " = "@ + name),
        UsageV::Serialize { receiver } => s2_field_serialize(w, n.name, n.value, receiver),
        UsageV::Deserialize => s2_field_deserialize(w, n.name, n.value),
    }
}

/// Writes a field for a usage. Serializing and deserializing are for named types,
/// primitives and tuples of those.
pub fn write_named_format(field: &Named<Format>, usage: &Usage, w: &mut IndentedWriter)
    requires
        (usage is Serialize || usage is Deserialize) ==> s2_serializable(field.value@),
    ensures
        final(w)@ == s2_named(old(w)@, field@, usage@),
{
    let name = to_lower_camel_case(field.name.as_str());
    match usage {
        Usage::Field => {
            write_doc(&field.doc, w);
            w.write_line(concat4("public var ", name.as_str(), ": ", write_format(&field.value).as_str()).as_str());
        },
        Usage::Parameter => w.write_string(&concat3(name.as_str(), ": ", write_format(&field.value).as_str())),
        Usage::Argument => w.write_string(&concat3(name.as_str(), ": ", name.as_str())),
        Usage::Assignment => w.write_line(concat4("self.", name.as_str(), " = ", name.as_str()).as_str()),
        Usage::Serialize { receiver } => write_field_serialize(w, field.name.as_str(), &field.value, receiver.as_str()),
        Usage::Deserialize { .. } => write_field_deserialize(w, field.name.as_str(), &field.value),
    }
}

/// The fields for a usage, one after the other.
pub open spec fn s2_each(w: WriterState, fields: Seq<NamedV<FormatV>>, usage: UsageV) -> WriterState
    decreases fields.len(),
{
    if fields.len() == 0 {
        w
    } else {
        s2_named(s2_each(w, fields.drop_last(), usage), fields.last(), usage)
    }
}

/// The fields as parameters, separated by `", "`.
pub open spec fn s2_params(fields: Seq<NamedV<FormatV>>) -> Seq<char> {
    joined(fields.map_values(|n: NamedV<FormatV>| lower_camel_case(n.name) + ": "@ + s2_type(n.value)), ", "@)
}

/// Whether every field can be serialized.
pub open spec fn s2_fields_serializable(fields: Seq<NamedV<FormatV>>) -> bool {
    forall|i: int| 0 <= i < fields.len() ==> s2_serializable(#[trigger] fields[i].value)
}

fn write_each(w: &mut IndentedWriter, fields: &Vec<Named<Format>>, usage: &Usage)
    requires
        (usage is Serialize || usage is Deserialize) ==> s2_fields_serializable(seq_view(fields@)),
    ensures
        final(w)@ == s2_each(old(w)@, seq_view(fields@), usage@),
{
    let mut i: usize = 0;
    while i < fields.len()
        invariant
            i <= fields.len(),
            (usage is Serialize || usage is Deserialize) ==> s2_fields_serializable(seq_view(fields@)),
            w@ == s2_each(old(w)@, seq_view(fields@).take(i as int), usage@),
        decreases fields.len() - i,
    {
        proof {
            if usage is Serialize || usage is Deserialize {
                assert(s2_serializable(seq_view(fields@)[i as int].value));
            }
        }
        write_named_format(&fields[i], usage, w);
        assert(seq_view(fields@).take(i + 1).drop_last() =~= seq_view(fields@).take(i as int));
        i = i + 1;
    }
    assert(seq_view(fields@).take(fields.len() as int) =~= seq_view(fields@));
}

fn params_text(fields: &Vec<Named<Format>>) -> (r: String)
    ensures
        r@ == s2_params(seq_view(fields@)),
{
    let mut parts: Vec<String> = Vec::new();
    let mut i: usize = 0;
    while i < fields.len()
        invariant
            i <= fields.len(),
            strings_view(parts@) == seq_view(fields@).take(i as int).map_values(
                |n: NamedV<FormatV>| lower_camel_case(n.name) + ": "@ + s2_type(n.value),
            ),
        decreases fields.len() - i,
    {
        parts.push(concat3(to_lower_camel_case(fields[i].name.as_str()).as_str(), ": ", write_format(&fields[i].value).as_str()));
        proof {
            let a = strings_view(parts@);
            let b = seq_view(fields@).take(i + 1).map_values(|n: NamedV<FormatV>| lower_camel_case(n.name) + ": "@ + s2_type(n.value));
            let c = seq_view(fields@).take(i as int).map_values(|n: NamedV<FormatV>| lower_camel_case(n.name) + ": "@ + s2_type(n.value));
            assert(seq_view(fields@).len() == fields@.len());
            assert(c.len() == i);
            assert(a.len() == parts@.len());
            assert forall|j: int| 0 <= j < a.len() implies a[j] == b[j] by {
                if j < i {
                    assert(a[j] == c[j]);
                } else {
                    assert(seq_view(fields@)[j] == fields@[j]@);
                }
            }
            assert(a =~= b);
        }
        i = i + 1;
    }
    assert(seq_view(fields@).take(fields.len() as int) =~= seq_view(fields@));
    join_with(&parts, ", ")
}

/// The `jsonSerialize` method, after a blank line.
pub open spec fn s2_json_serialize(w: WriterState) -> WriterState {
    put_str(
        put_newline(w),
        "public func jsonSerialize() throws -> Array<UInt8> {\n    let serializer = JsonSerializer.init();\n    try self.serialize(serializer: serializer)\n    return serializer.get_bytes()\n}\n"@,
    )
}

/// The `jsonDeserialize` method, after a blank line.
pub open spec fn s2_json_deserialize(w: WriterState, name: Seq<char>) -> WriterState {
    put_str(
        put_newline(w),
        "public static func jsonDeserialize(input: Array<UInt8>) throws -> "@ + name
            + " {\n    let deserializer = JsonDeserializer.init(input: input);\n    let obj = try deserialize(deserializer: deserializer)\n    if deserializer.get_buffer_offset() < input.count {\n        throw DeserializationError.invalidInput(issue: \"Some input bytes were not read\")\n    }\n    return obj\n}\n"@,
    )
}

fn write_json_serialize(w: &mut IndentedWriter)
    ensures
        final(w)@ == s2_json_serialize(old(w)@),
{
    w.newline();
    w.write_str(
        "public func jsonSerialize() throws -> Array<UInt8> {\n    let serializer = JsonSerializer.init();\n    try self.serialize(serializer: serializer)\n    return serializer.get_bytes()\n}\n",
    );
}

fn write_json_deserialize(w: &mut IndentedWriter, name: &str)
    ensures
        final(w)@ == s2_json_deserialize(old(w)@, name@),
{
    w.newline();
    let text = concat3(
        "public static func jsonDeserialize(input: Array<UInt8>) throws -> ",
        name,
        " {\n    let deserializer = JsonDeserializer.init(input: input);\n    let obj = try deserialize(deserializer: deserializer)\n    if deserializer.get_buffer_offset() < input.count {\n        throw DeserializationError.invalidInput(issue: \"Some input bytes were not read\")\n    }\n    return obj\n}\n",
    );
    w.write_string(&text);
}

} // verus!

verus! {

/// A `case` of the enum declaration.
pub open spec fn s2_variant_field(w: WriterState, v: NamedV<VariantFormatV>) -> WriterState {
    let w = s2_doc(w, v.doc);
    let n = lower_camel_case(v.name);
    match v.value {
        VariantFormatV::Unit => put_line(w, "case "@ + n),
        VariantFormatV::NewType(f) => put_line(w, "case "@ + n + "("@ + s2_type(f) + ")"@),
        VariantFormatV::Tuple(s) => put_line(w, "case "@ + n + "("@ + s2_type_list(s) + ")"@),
        VariantFormatV::Struct(fs) => put_line(w, "case "@ + n + "("@ + s2_params(fs) + ")"@),
    }
}

/// The serializing `case` of a variant: its position in the enum.
pub open spec fn s2_variant_serialize(w: WriterState, v: NamedV<VariantFormatV>, index: nat) -> WriterState {
    let w = indented(put_line(s2_doc(w, v.doc), "case ."@ + lower_camel_case(v.name) + ":"@));
    unindented(put_line(w, "try serializer.serialize_variant_index(value: "@ + decimal(index) + ")"@))
}

/// The deserializing `case` of a variant: its position in the enum, and the variant
/// returned.
pub open spec fn s2_variant_deserialize(w: WriterState, v: NamedV<VariantFormatV>, index: nat) -> WriterState {
    let w = indented(put_line(s2_doc(w, v.doc), "case "@ + decimal(index) + ":"@));
    unindented(put_line(s2_pop_deser(w), "return ."@ + lower_camel_case(v.name)))
}

fn write_variant_field(w: &mut IndentedWriter, v: &Named<VariantFormat>)
    ensures
        final(w)@ == s2_variant_field(old(w)@, v@),
{
    write_doc(&v.doc, w);
    let n = to_lower_camel_case(v.name.as_str());
    match &v.value {
        VariantFormat::Unit => w.write_line(concat("case ", n.as_str()).as_str()),
        VariantFormat::NewType(f) => {
            let mut line = concat4("case ", n.as_str(), "(", write_format(f).as_str());
            line.append(")");
            w.write_line(line.as_str());
        },
        VariantFormat::Tuple(fs) => {
            proof {
                lemma_formats_view(fs@);
            }
            let mut line = concat4("case ", n.as_str(), "(", type_list(fs).as_str());
            line.append(")");
            w.write_line(line.as_str());
        },
        VariantFormat::Struct(fs) => {
            let mut line = concat4("case ", n.as_str(), "(", params_text(fs).as_str());
            line.append(")");
            w.write_line(line.as_str());
        },
    }
}

fn write_variant_serialize(w: &mut IndentedWriter, v: &Named<VariantFormat>, index: usize)
    ensures
        final(w)@ == s2_variant_serialize(old(w)@, v@, index as nat),
{
    write_doc(&v.doc, w);
    let mut line = concat3("case .", to_lower_camel_case(v.name.as_str()).as_str(), ":");
    w.write_line(line.as_str());
    w.indent();
    line = concat3("try serializer.serialize_variant_index(value: ", usize_to_string(index).as_str(), ")");
    w.write_line(line.as_str());
    w.unindent();
}

fn write_variant_deserialize(w: &mut IndentedWriter, v: &Named<VariantFormat>, index: usize)
    ensures
        final(w)@ == s2_variant_deserialize(old(w)@, v@, index as nat),
{
    write_doc(&v.doc, w);
    w.write_line(concat3("case ", usize_to_string(index).as_str(), ":").as_str());
    w.indent();
    pop_deserializer(w);
    w.write_line(concat("return .", to_lower_camel_case(v.name.as_str()).as_str()).as_str());
    w.unindent();
}

/// A `Hashable` struct with one stored property per field, a memberwise initializer and,
/// under JSON, the serialization methods.
pub open spec fn s2_struct(
    w: WriterState,
    name: Seq<char>,
    fields: Seq<NamedV<FormatV>>,
    doc: Seq<Seq<char>>,
    encoding: Encoding,
) -> WriterState {
    let w = s2_doc(w, doc);
    let w = block_opened(put_str(w, "public struct "@ + name + ": Hashable "@));
    let w = s2_each(w, fields, UsageV::Field);
    let w = if fields.len() > 0 { put_newline(w) } else { w };
    let w = put_str(w, "public init("@ + s2_params(fields) + ") "@);
    let w = block_closed(s2_each(block_opened(w), fields, UsageV::Assignment));
    let w = if encoding == Encoding::Json {
        let w = block_opened(put_str(put_newline(w), "public func serialize<S: Serializer>(serializer: S) throws "@));
        let w = s2_each(s2_push_ser(w), fields, UsageV::Serialize { receiver: "self"@ });
        let w = s2_json_serialize(block_closed(s2_pop_ser(w)));
        let w = block_opened(put_str(
            put_newline(w),
            "public static func deserialize<D: Deserializer>(deserializer: D) throws -> "@ + name + " "@,
        ));
        let w = s2_each(s2_push_deser(w), fields, UsageV::Deserialize);
        let w = put_line(s2_pop_deser(w), "return "@ + name + "("@ + sw_args(fields) + ")"@);
        s2_json_deserialize(block_closed(w), name)
    } else {
        w
    };
    block_closed(w)
}

fn write_struct(w: &mut IndentedWriter, name: &str, fields: &Vec<Named<Format>>, doc: &Doc, encoding: Encoding)
    requires
        encoding == Encoding::Plain || encoding == Encoding::Json,
        encoding == Encoding::Json ==> s2_fields_serializable(seq_view(fields@)),
    ensures
        final(w)@ == s2_struct(old(w)@, name@, seq_view(fields@), doc@, encoding),
{
    write_doc(doc, w);
    w.write_string(&concat3("public struct ", name, ": Hashable "));
    w.start_block();
    write_each(w, fields, &Usage::Field);
    if fields.len() > 0 {
        w.newline();
    }
    w.write_string(&concat3("public init(", params_text(fields).as_str(), ") "));
    w.start_block();
    write_each(w, fields, &Usage::Assignment);
    w.end_block();
    if encoding.is_json() {
        w.newline();
        w.write_str("public func serialize<S: Serializer>(serializer: S) throws ");
        w.start_block();
        push_serializer(w);
        let ser = Usage::Serialize { receiver: String::from_str("self") };
        proof {
            reveal_strlit("self");
        }
        write_each(w, fields, &ser);
        pop_serializer(w);
        w.end_block();
        write_json_serialize(w);
        w.newline();
        w.write_string(&concat3("public static func deserialize<D: Deserializer>(deserializer: D) throws -> ", name, " "));
        w.start_block();
        push_deserializer(w);
        write_each(w, fields, &Usage::Deserialize { receiver: String::from_str("self") });
        pop_deserializer(w);
        let mut line = concat3("return ", name, "(");
        line.append(args_text(fields).as_str());
        line.append(")");
        w.write_line(line.as_str());
        w.end_block();
        write_json_deserialize(w, name);
    }
    w.end_block();
}

/// The `case` declarations of the variants.
pub open spec fn s2_variant_fields(w: WriterState, vs: Seq<NamedV<VariantFormatV>>) -> WriterState
    decreases vs.len(),
{
    if vs.len() == 0 {
        w
    } else {
        s2_variant_field(s2_variant_fields(w, vs.drop_last()), vs.last())
    }
}

/// The cases of the serializing `switch`, by variant position.
pub open spec fn s2_variants_serialize(w: WriterState, vs: Seq<NamedV<VariantFormatV>>) -> WriterState
    decreases vs.len(),
{
    if vs.len() == 0 {
        w
    } else {
        s2_variant_serialize(s2_variants_serialize(w, vs.drop_last()), without_doc(vs.last()), (vs.len() - 1) as nat)
    }
}

/// The cases of the deserializing `switch`, by variant position.
pub open spec fn s2_variants_deserialize(w: WriterState, vs: Seq<NamedV<VariantFormatV>>) -> WriterState
    decreases vs.len(),
{
    if vs.len() == 0 {
        w
    } else {
        s2_variant_deserialize(s2_variants_deserialize(w, vs.drop_last()), without_doc(vs.last()), (vs.len() - 1) as nat)
    }
}

/// A `Hashable` enum with one case per variant and, under JSON, the serialization methods,
/// which switch on the variant's position.
pub open spec fn s2_enum(
    w: WriterState,
    name: Seq<char>,
    vs: Seq<NamedV<VariantFormatV>>,
    doc: Seq<Seq<char>>,
    encoding: Encoding,
) -> WriterState {
    let w = s2_doc(w, doc);
    let w = block_opened(put_str(w, "public enum "@ + name + ": Hashable "@));
    let w = s2_variant_fields(w, vs);
    let w = if encoding == Encoding::Json {
        let w = block_opened(put_str(put_newline(w), "public func serialize<S: Serializer>(serializer: S) throws "@));
        let w = unindented(block_opened(put_str(s2_push_ser(w), "switch self "@)));
        let w = block_closed(indented(s2_variants_serialize(w, vs)));
        let w = s2_json_serialize(block_closed(s2_pop_ser(w)));
        let w = block_opened(put_str(
            put_newline(w),
            "public static func deserialize<D: Deserializer>(deserializer: D) throws -> "@ + name + " "@,
        ));
        let w = s2_push_deser(put_line(w, "let index = try deserializer.deserialize_variant_index()"@));
        let w = unindented(block_opened(put_str(w, "switch index "@)));
        let w = s2_variants_deserialize(w, vs);
        let w = put_line(
            w,
            "default: throw DeserializationError.invalidInput(issue: \"Unknown variant index for "@ + name + ": \\(index)\")"@,
        );
        s2_json_deserialize(block_closed(block_closed(indented(w))), name)
    } else {
        w
    };
    block_closed(w)
}

fn write_enum(w: &mut IndentedWriter, name: &str, variants: &VariantMap, doc: &Doc, encoding: Encoding)
    requires
        encoding == Encoding::Plain || encoding == Encoding::Json,
    ensures
        final(w)@ == s2_enum(old(w)@, name@, variant_values(variants@), doc@, encoding),
{
    let ghost vs = variant_values(variants@);
    write_doc(doc, w);
    w.write_string(&concat3("public enum ", name, ": Hashable "));
    w.start_block();
    let n = variants.len();
    let ghost start = w@;
    let mut i: usize = 0;
    assert(vs.take(0) =~= Seq::<NamedV<VariantFormatV>>::empty());
    while i < n
        invariant
            i <= n == variants@.len() == vs.len(),
            vs == variant_values(variants@),
            w@ == s2_variant_fields(start, vs.take(i as int)),
        decreases n - i,
    {
        let (_k, v) = variants.entry(i);
        write_variant_field(w, v);
        assert(vs.take(i + 1).drop_last() =~= vs.take(i as int));
        i = i + 1;
    }
    assert(vs.take(n as int) =~= vs);
    if encoding.is_json() {
        w.newline();
        w.write_str("public func serialize<S: Serializer>(serializer: S) throws ");
        w.start_block();
        push_serializer(w);
        w.write_str("switch self ");
        w.start_block();
        w.unindent();
        let ghost start = w@;
        let mut i: usize = 0;
        assert(vs.take(0) =~= Seq::<NamedV<VariantFormatV>>::empty());
        while i < n
            invariant
                i <= n == variants@.len() == vs.len(),
                vs == variant_values(variants@),
                w@ == s2_variants_serialize(start, vs.take(i as int)),
            decreases n - i,
        {
            let (_k, v) = variants.entry(i);
            let bare = v.without_docs();
            write_variant_serialize(w, &bare, i);
            assert(vs.take(i + 1).drop_last() =~= vs.take(i as int));
            i = i + 1;
        }
        assert(vs.take(n as int) =~= vs);
        w.indent();
        w.end_block();
        pop_serializer(w);
        w.end_block();
        write_json_serialize(w);
        w.newline();
        w.write_string(&concat3("public static func deserialize<D: Deserializer>(deserializer: D) throws -> ", name, " "));
        w.start_block();
        w.write_line("let index = try deserializer.deserialize_variant_index()");
        push_deserializer(w);
        w.write_str("switch index ");
        w.start_block();
        w.unindent();
        let ghost start = w@;
        let mut i: usize = 0;
        assert(vs.take(0) =~= Seq::<NamedV<VariantFormatV>>::empty());
        while i < n
            invariant
                i <= n == variants@.len() == vs.len(),
                vs == variant_values(variants@),
                w@ == s2_variants_deserialize(start, vs.take(i as int)),
            decreases n - i,
        {
            let (_k, v) = variants.entry(i);
            let bare = v.without_docs();
            write_variant_deserialize(w, &bare, i);
            assert(vs.take(i + 1).drop_last() =~= vs.take(i as int));
            i = i + 1;
        }
        assert(vs.take(n as int) =~= vs);
        w.write_line(
            concat3(
                "default: throw DeserializationError.invalidInput(issue: \"Unknown variant index for ",
                name,
                ": \\(index)\")",
            ).as_str(),
        );
        w.indent();
        w.end_block();
        w.end_block();
        write_json_deserialize(w, name);
    }
    w.end_block();
}

/// Whether the fields of a container can be serialized under `encoding`: JSON serializes
/// named types, primitives and tuples of those.
pub open spec fn s2_container_supported(c: ContainerFormatV, encoding: Encoding) -> bool {
    (encoding == Encoding::Plain || encoding == Encoding::Json) && (encoding == Encoding::Json ==> match c {
        ContainerFormatV::NewTypeStruct(f, _) => s2_serializable(f),
        ContainerFormatV::TupleStruct(s, _) => s2_all_serializable(s),
        ContainerFormatV::Struct(fs, _) => s2_fields_serializable(fs),
        _ => true,
    })
}

/// A type definition: a struct for every struct shape (a newtype holding its value in
/// `value`, a tuple struct in `field0`, `field1`, ...), an enum for an enum.
pub open spec fn s2_container(w: WriterState, name: Seq<char>, c: ContainerFormatV, encoding: Encoding) -> WriterState {
    match c {
        ContainerFormatV::UnitStruct(d) => s2_struct(w, name, Seq::empty(), d, encoding),
        ContainerFormatV::NewTypeStruct(f, d) => s2_struct(
            w,
            name,
            seq![NamedV { name: "value"@, doc: Seq::empty(), value: f }],
            d,
            encoding,
        ),
        ContainerFormatV::TupleStruct(s, d) => s2_struct(w, name, sw_named(s, "field"@), d, encoding),
        ContainerFormatV::Struct(fs, d) => s2_struct(w, name, fs, d, encoding),
        ContainerFormatV::Enum(vs, d) => s2_enum(w, name, variant_values(vs), d, encoding),
    }
}

/// Writes the definition of the type `name`.
pub fn write_container(w: &mut IndentedWriter, encoding: Encoding, name: &QualifiedTypeName, format: &ContainerFormat)
    requires
        s2_container_supported(format@, encoding),
    ensures
        final(w)@ == s2_container(old(w)@, name@.name, format@, encoding),
{
    let n = name.name.as_str();
    match format {
        ContainerFormat::UnitStruct(doc) => {
            let fields: Vec<Named<Format>> = Vec::new();
            assert(seq_view(fields@) =~= Seq::<NamedV<FormatV>>::empty());
            write_struct(w, n, &fields, doc, encoding);
        },
        ContainerFormat::NewTypeStruct(f, doc) => {
            let fields = vec![Named::new((**f).clone(), String::from_str("value"))];
            assert(seq_view(fields@) =~= seq![NamedV { name: "value"@, doc: Seq::<Seq<char>>::empty(), value: f@ }]);
            write_struct(w, n, &fields, doc, encoding);
        },
        ContainerFormat::TupleStruct(fs, doc) => {
            proof {
                lemma_formats_view(fs@);
            }
            let fields = named(fs, "field");
            proof {
                if encoding == Encoding::Json {
                    assert forall|i: int| 0 <= i < seq_view(fields@).len() implies s2_serializable(
                        #[trigger] seq_view(fields@)[i].value,
                    ) by {
                        lemma_all_serializable(formats_view(fs@), i);
                    }
                }
            }
            write_struct(w, n, &fields, doc, encoding);
        },
        ContainerFormat::Struct(fields, doc) => write_struct(w, n, fields, doc, encoding),
        ContainerFormat::Enum(variants, doc) => write_enum(w, n, variants, doc, encoding),
    }
}

} // verus!

verus! {

broadcast use {
    lemma_put_line_keeps_indentation,
    lemma_put_str_same_indentation,
    lemma_put_newline_keeps_indentation,
    lemma_indented_prefix,
};

pub broadcast proof fn lemma_s2_doc_keeps_indentation(w: WriterState, doc: Seq<Seq<char>>)
    ensures
        same_indentation(w, #[trigger] s2_doc(w, doc)),
    decreases doc.len(),
{
    if doc.len() > 0 {
        lemma_s2_doc_keeps_indentation(w, doc.drop_last());
    }
}

pub broadcast proof fn lemma_s2_field_serialize_keeps_indentation(w: WriterState, name: Seq<char>, value: FormatV, receiver: Seq<char>)
    ensures
        same_indentation(w, #[trigger] s2_field_serialize(w, name, value, receiver)),
    decreases value, 1nat,
{
    if let FormatV::Tuple(s) = value {
        lemma_s2_tuple_serialize_keeps_indentation(s2_push_ser(w), s, lower_camel_case(name));
    }
}

pub broadcast proof fn lemma_s2_tuple_serialize_keeps_indentation(w: WriterState, s: Seq<FormatV>, receiver: Seq<char>)
    ensures
        same_indentation(w, #[trigger] s2_tuple_serialize(w, s, receiver)),
    decreases s, 0nat,
{
    if s.len() > 0 {
        lemma_s2_tuple_serialize_keeps_indentation(w, s.drop_last(), receiver);
        assert(decreases_to!(s => s.last()));
        lemma_s2_field_serialize_keeps_indentation(
            s2_tuple_serialize(w, s.drop_last(), receiver),
            decimal((s.len() - 1) as nat),
            s.last(),
            receiver,
        );
    }
}

pub broadcast proof fn lemma_s2_field_deserialize_keeps_indentation(w: WriterState, name: Seq<char>, value: FormatV)
    ensures
        same_indentation(w, #[trigger] s2_field_deserialize(w, name, value)),
    decreases value, 1nat,
{
    if let FormatV::Tuple(s) = value {
        lemma_s2_tuple_deserialize_keeps_indentation(s2_push_deser(w), s, lower_camel_case(name));
    }
}

pub broadcast proof fn lemma_s2_tuple_deserialize_keeps_indentation(w: WriterState, s: Seq<FormatV>, prefix: Seq<char>)
    ensures
        same_indentation(w, #[trigger] s2_tuple_deserialize(w, s, prefix)),
    decreases s, 0nat,
{
    if s.len() > 0 {
        lemma_s2_tuple_deserialize_keeps_indentation(w, s.drop_last(), prefix);
        assert(decreases_to!(s => s.last()));
        lemma_s2_field_deserialize_keeps_indentation(
            s2_tuple_deserialize(w, s.drop_last(), prefix),
            prefix + decimal((s.len() - 1) as nat),
            s.last(),
        );
    }
}

pub broadcast proof fn lemma_s2_each_keeps_indentation(w: WriterState, fields: Seq<NamedV<FormatV>>, usage: UsageV)
    ensures
        same_indentation(w, #[trigger] s2_each(w, fields, usage)),
    decreases fields.len(),
{
    broadcast use {
        lemma_s2_doc_keeps_indentation,
        lemma_s2_field_serialize_keeps_indentation,
        lemma_s2_field_deserialize_keeps_indentation,
    };
    if fields.len() > 0 {
        lemma_s2_each_keeps_indentation(w, fields.drop_last(), usage);
    }
}

pub broadcast proof fn lemma_s2_struct_keeps_indentation(
    w: WriterState,
    name: Seq<char>,
    fields: Seq<NamedV<FormatV>>,
    doc: Seq<Seq<char>>,
    encoding: Encoding,
)
    ensures
        same_indentation(w, #[trigger] s2_struct(w, name, fields, doc, encoding)),
{
    broadcast use {lemma_s2_doc_keeps_indentation, lemma_s2_each_keeps_indentation};
}

pub broadcast proof fn lemma_s2_variant_fields_keeps_indentation(w: WriterState, vs: Seq<NamedV<VariantFormatV>>)
    ensures
        same_indentation(w, #[trigger] s2_variant_fields(w, vs)),
    decreases vs.len(),
{
    broadcast use lemma_s2_doc_keeps_indentation;
    if vs.len() > 0 {
        lemma_s2_variant_fields_keeps_indentation(w, vs.drop_last());
    }
}

pub broadcast proof fn lemma_s2_variants_serialize_keeps_indentation(w: WriterState, vs: Seq<NamedV<VariantFormatV>>)
    ensures
        same_indentation(w, #[trigger] s2_variants_serialize(w, vs)),
    decreases vs.len(),
{
    broadcast use lemma_s2_doc_keeps_indentation;
    if vs.len() > 0 {
        lemma_s2_variants_serialize_keeps_indentation(w, vs.drop_last());
    }
}

pub broadcast proof fn lemma_s2_variants_deserialize_keeps_indentation(w: WriterState, vs: Seq<NamedV<VariantFormatV>>)
    ensures
        same_indentation(w, #[trigger] s2_variants_deserialize(w, vs)),
    decreases vs.len(),
{
    broadcast use lemma_s2_doc_keeps_indentation;
    if vs.len() > 0 {
        lemma_s2_variants_deserialize_keeps_indentation(w, vs.drop_last());
    }
}

pub broadcast proof fn lemma_s2_enum_keeps_indentation(
    w: WriterState,
    name: Seq<char>,
    vs: Seq<NamedV<VariantFormatV>>,
    doc: Seq<Seq<char>>,
    encoding: Encoding,
)
    ensures
        same_indentation(w, #[trigger] s2_enum(w, name, vs, doc, encoding)),
{
    broadcast use {
        lemma_s2_doc_keeps_indentation,
        lemma_s2_variant_fields_keeps_indentation,
        lemma_s2_variants_serialize_keeps_indentation,
        lemma_s2_variants_deserialize_keeps_indentation,
    };
}

/// Every block that a type definition opens, it closes: writing it leaves the indentation
/// as it found it.
pub proof fn lemma_s2_container_balanced(w: WriterState, name: Seq<char>, c: ContainerFormatV, encoding: Encoding)
    ensures
        same_indentation(w, s2_container(w, name, c, encoding)),
{
    broadcast use {lemma_s2_struct_keeps_indentation, lemma_s2_enum_keeps_indentation};
}

/// A map is a `Dictionary` whose first type argument is the type of its keys and whose
/// second is the type of its values; likewise a set is a `Set` of its elements, and both
/// take the very types their elements would have on their own.
pub proof fn lemma_s2_map_type(key: FormatV, value: FormatV)
    ensures
        s2_type(FormatV::MapOf { key: Box::new(key), value: Box::new(value) }) == "Dictionary<"@ + s2_type(key) + ", "@ + s2_type(value) + ">"@,
        s2_type(FormatV::SetOf(Box::new(key))) == "Set<"@ + s2_type(key) + ">"@,
        s2_type(FormatV::Sequence(Box::new(value))) == "Array<"@ + s2_type(value) + ">"@,
{
}

} // verus!
