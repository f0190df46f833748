//! Helpers shared by the target languages.
use vstd::prelude::*;

use crate::generation::indent::{decimal, usize_to_string};
use crate::reflection::format::{formats_view, lemma_formats_view, Format, FormatV};
use crate::util::text::{concat, concat4};

verus! {

/// Whether `f` is a primitive format (neither a type name nor a composite).
pub open spec fn is_primitive(f: FormatV) -> bool {
    match f {
        FormatV::TypeName(_) | FormatV::Option(_) | FormatV::Sequence(_) | FormatV::SetOf(_)
        | FormatV::MapOf { .. } | FormatV::Tuple(_) | FormatV::TupleArray { .. } => false,
        _ => true,
    }
}

/// The lower-case name of a primitive format, as serializer methods are named.
pub open spec fn primitive_name(f: FormatV) -> Seq<char> {
    match f {
        FormatV::Unit => "unit"@,
        FormatV::Bool => "bool"@,
        FormatV::I8 => "i8"@,
        FormatV::I16 => "i16"@,
        FormatV::I32 => "i32"@,
        FormatV::I64 => "i64"@,
        FormatV::I128 => "i128"@,
        FormatV::U8 => "u8"@,
        FormatV::U16 => "u16"@,
        FormatV::U32 => "u32"@,
        FormatV::U64 => "u64"@,
        FormatV::U128 => "u128"@,
        FormatV::F32 => "f32"@,
        FormatV::F64 => "f64"@,
        FormatV::Char => "char"@,
        FormatV::Str => "str"@,
        FormatV::Bytes => "bytes"@,
        _ => Seq::empty(),
    }
}

/// The lower-case name of a primitive format.
pub fn primitive_name_str(f: &Format) -> (s: &'static str)
    requires
        is_primitive(f@),
    ensures
        s@ == primitive_name(f@),
{
    match f {
        Format::Unit => "unit",
        Format::Bool => "bool",
        Format::I8 => "i8",
        Format::I16 => "i16",
        Format::I32 => "i32",
        Format::I64 => "i64",
        Format::I128 => "i128",
        Format::U8 => "u8",
        Format::U16 => "u16",
        Format::U32 => "u32",
        Format::U64 => "u64",
        Format::U128 => "u128",
        Format::F32 => "f32",
        Format::F64 => "f64",
        Format::Char => "char",
        Format::Str => "str",
        _ => "bytes",
    }
}

/// Whether `f` is a primitive format.
pub fn format_is_primitive(f: &Format) -> (b: bool)
    ensures
        b == is_primitive(f@),
{
    match f {
        Format::TypeName(_) | Format::Option(_) | Format::Sequence(_) | Format::SetOf(_)
        | Format::MapOf { .. } | Format::Tuple(_) | Format::TupleArray { .. } => false,
        _ => true,
    }
}

} // verus!

verus! {

/// Whether `f` is a composite format, which generated code handles with a helper function.
pub open spec fn needs_helper(f: FormatV) -> bool {
    match f {
        FormatV::Option(_) | FormatV::Sequence(_) | FormatV::SetOf(_) | FormatV::MapOf { .. } | FormatV::Tuple(_)
        | FormatV::TupleArray { .. } => true,
        _ => false,
    }
}

/// Whether `f` is a composite format, which generated code handles with a helper function.
pub fn format_needs_helper(f: &Format) -> (b: bool)
    ensures
        b == needs_helper(f@),
{
    match f {
        Format::Option(_) | Format::Sequence(_) | Format::SetOf(_) | Format::MapOf { .. } | Format::Tuple(_)
        | Format::TupleArray { .. } => true,
        _ => false,
    }
}

/// A name for a format that can be part of an identifier: `option_T`, `vector_T`, `set_T`,
/// `map_K_to_V`, `tupleN_A_B`, `arrayN_T_array`; a type's own name; a primitive's name.
pub open spec fn mangled(f: FormatV) -> Seq<char>
    decreases f,
{
    match f {
        FormatV::TypeName(q) => q.name,
        FormatV::Option(g) => "option_"@ + mangled(*g),
        FormatV::Sequence(g) => "vector_"@ + mangled(*g),
        FormatV::SetOf(g) => "set_"@ + mangled(*g),
        FormatV::MapOf { key, value } => "map_"@ + mangled(*key) + "_to_"@ + mangled(*value),
        FormatV::Tuple(s) => "tuple"@ + decimal(s.len()) + "_"@ + mangled_list(s),
        FormatV::TupleArray { content, size } => "array"@ + decimal(size as nat) + "_"@ + mangled(*content) + "_array"@,
        _ => primitive_name(f),
    }
}

/// The mangled names of `s`, separated by `_`.
pub open spec fn mangled_list(s: Seq<FormatV>) -> Seq<char>
    decreases s,
{
    if s.len() == 0 {
        Seq::empty()
    } else if s.len() == 1 {
        mangled(s.last())
    } else {
        mangled_list(s.drop_last()) + "_"@ + mangled(s.last())
    }
}

/// A name for a format that can be part of an identifier.
pub fn mangle_type(f: &Format) -> (r: String)
    ensures
        r@ == mangled(f@),
    decreases f, 0nat,
{
    match f {
        Format::TypeName(q) => q.name.clone(),
        Format::Option(g) => concat("option_", mangle_type(g).as_str()),
        Format::Sequence(g) => concat("vector_", mangle_type(g).as_str()),
        Format::SetOf(g) => concat("set_", mangle_type(g).as_str()),
        Format::MapOf { key, value } => concat4("map_", mangle_type(key).as_str(), "_to_", mangle_type(value).as_str()),
        Format::Tuple(v) => {
            proof {
                lemma_formats_view(v@);
            }
            concat4("tuple", usize_to_string(v.len()).as_str(), "_", mangle_list(v).as_str())
        },
        Format::TupleArray { content, size } => {
            let mut r = concat4("array", usize_to_string(*size).as_str(), "_", mangle_type(content).as_str());
            r.append("_array");
            r
        },
        _ => String::from_str(primitive_name_str(f)),
    }
}

/// The mangled names of a vector of formats, separated by `_`.
fn mangle_list(v: &Vec<Format>) -> (r: String)
    ensures
        r@ == mangled_list(formats_view(v@)),
    decreases v@, 1nat,
{
    let mut out = String::new();
    let mut i: usize = 0;
    proof {
        assert(v@.take(0) =~= Seq::<Format>::empty());
    }
    while i < v.len()
        invariant
            i <= v.len(),
            out@ == mangled_list(formats_view(v@.take(i as int))),
        decreases v.len() - i,
    {
        proof {
            assert(decreases_to!(v@ => v@[i as int]));
            assert(v@.take(i + 1).drop_last() =~= v@.take(i as int));
        }
        let ghost before = out@;
        if i > 0 {
            out.append("_");
        }
        let t = mangle_type(&v[i]);
        out.append(t.as_str());
        proof {
            let s = formats_view(v@.take(i + 1));
            lemma_formats_view(v@.take(i + 1));
            lemma_formats_view(v@.take(i as int));
            assert(s.len() == i + 1);
            assert(s.drop_last() == formats_view(v@.take(i as int)));
            assert(s.last() == v@[i as int]@);
            if i == 0 {
                assert(before.len() == 0);
                assert(out@ =~= t@);
            } else {
                assert(out@ =~= before + "_"@ + t@);
            }
        }
        i = i + 1;
    }
    assert(v@.take(v.len() as int) =~= v@);
    out
}

} // verus!
