//! Java source emission: one class per type, with optional serialization code.
use vstd::prelude::*;

use crate::case::{to_upper_camel_case, upper_camel_case};
use crate::text_wrap::{indent_lines, textwrap_indent};
use crate::generation::common::{format_is_primitive, is_primitive, mangle_type, mangled, primitive_name, primitive_name_str};
use crate::generation::config::{encoding_name, CodeGeneratorConfig, Encoding};
use crate::generation::indent::{decimal, indented, lemma_indented_prefix, lemma_put_line_keeps_indentation, lemma_put_newline_keeps_indentation, lemma_put_str_same_indentation, put_line, put_newline, put_str, same_indentation, unindented, usize_to_string, IndentedWriter, WriterState};
use crate::generation::java::generator::{qname_lookup, CodeGenerator};
use crate::generation::swift::emitter::{named, sw_named};
use crate::generation::swift::generator::{collect_helpers, entries_subformats, entry_keys, helpers, registry_subformats};
use crate::reflection::format::{formats_view, lemma_formats_view, seq_view, ContainerFormat, ContainerFormatV, Format, FormatV, Named, NamedV, QualifiedTypeNameV, Registry, VariantFormat, VariantFormatV, VariantMap};
use crate::util::path_map::{path_lookup, path_view};

use crate::util::text::{concat, concat3, concat4, join_with, joined, replace_all, replace_text, split_on, split_text, str_eq, strictly_sorted, strings_view};

verus! {


/// What Java generation reads of a configuration.
pub struct JavaConfig {
    pub module_name: Seq<char>,
    pub encoding: Encoding,
    pub definitions: Seq<(Seq<char>, Seq<String>)>,
    pub comments: Seq<(Seq<Seq<char>>, Seq<char>)>,
    pub custom_code: Seq<(Seq<Seq<char>>, Seq<char>)>,
}

/// The part of `c` that Java generation reads.
pub open spec fn java_config(c: CodeGeneratorConfig) -> JavaConfig {
    JavaConfig {
        module_name: c.module_name@,
        encoding: c.encoding,
        definitions: c.external_definitions@,
        comments: c.comments@,
        custom_code: c.custom_code@,
    }
}

/// Where the emitter stands: the namespace of the class being written (the package's
/// segments, then the enclosing classes), and the names that the enclosing classes
/// reserve for their nested classes, innermost class last.
pub struct JavaContext {
    pub ns: Seq<Seq<char>>,
    pub reserved: Seq<Seq<Seq<char>>>,
}

/// Whether an enclosing class reserves `name`.
pub open spec fn is_reserved(ctx: JavaContext, name: Seq<char>) -> bool {
    exists|i: int, j: int| 0 <= i < ctx.reserved.len() && 0 <= j < ctx.reserved[i].len() && ctx.reserved[i][j] == name
}

/// The context inside the class `name`, which reserves `names`.
pub open spec fn entered(ctx: JavaContext, name: Seq<char>, names: Seq<Seq<char>>) -> JavaContext {
    JavaContext { ns: ctx.ns.push(name), reserved: ctx.reserved.push(names) }
}

/// Whether `p` is a prefix of the namespace `ns`.
pub open spec fn namespace_prefix(p: Seq<Seq<char>>, ns: Seq<Seq<char>>) -> bool {
    p.len() <= ns.len() && forall|i: int| 0 <= i < p.len() ==> ns[i] == p[i]
}

/// The fully qualified class name of the type `name`: the one that the external
/// definitions give, or else `name` in the module's package.
pub open spec fn java_qname(cfg: JavaConfig, name: Seq<char>) -> Seq<char> {
    match qname_lookup(cfg.definitions, cfg.module_name, name) {
        Some(q) => q,
        None => cfg.module_name + "."@ + name,
    }
}

/// How the type `name` is referred to in `ctx`: by its simple name when its package
/// encloses the current namespace and no enclosing class reserves the name, else by its
/// fully qualified name.
pub open spec fn java_quote_name(cfg: JavaConfig, ctx: JavaContext, name: Seq<char>) -> Seq<char> {
    let q = java_qname(cfg, name);
    let path = split_on(q, '.');
    if path.len() <= 1 {
        q
    } else if is_reserved(ctx, path.last()) {
        q
    } else if namespace_prefix(path.drop_last(), ctx.ns) {
        path.last()
    } else {
        q
    }
}

/// The Java type of a format.
pub open spec fn java_type(cfg: JavaConfig, ctx: JavaContext, f: FormatV) -> Seq<char>
    decreases f,
{
    match f {
        FormatV::TypeName(q) => java_quote_name(cfg, ctx, q.name),
        FormatV::Unit => "com.novi.serde.Unit"@,
        FormatV::Bool => "Boolean"@,
        FormatV::I8 => "Byte"@,
        FormatV::I16 => "Short"@,
        FormatV::I32 => "Integer"@,
        FormatV::I64 => "Long"@,
        FormatV::I128 => "java.math.@com.novi.serde.Int128 BigInteger"@,
        FormatV::U8 => "@com.novi.serde.Unsigned Byte"@,
        FormatV::U16 => "@com.novi.serde.Unsigned Short"@,
        FormatV::U32 => "@com.novi.serde.Unsigned Integer"@,
        FormatV::U64 => "@com.novi.serde.Unsigned Long"@,
        FormatV::U128 => "java.math.@com.novi.serde.Unsigned @com.novi.serde.Int128 BigInteger"@,
        FormatV::F32 => "Float"@,
        FormatV::F64 => "Double"@,
        FormatV::Char => "Character"@,
        FormatV::Str => "String"@,
        FormatV::Bytes => "com.novi.serde.Bytes"@,
        FormatV::Option(g) => "java.util.Optional<"@ + java_type(cfg, ctx, *g) + ">"@,
        FormatV::Sequence(g) => "java.util.List<"@ + java_type(cfg, ctx, *g) + ">"@,
        FormatV::SetOf(g) => "java.util.List<"@ + java_type(cfg, ctx, *g) + ">"@,
        FormatV::MapOf { key, value } => "java.util.Map<"@ + java_type(cfg, ctx, *key) + ", "@ + java_type(cfg, ctx, *value)
            + ">"@,
        FormatV::Tuple(s) => "com.novi.serde.Tuple"@ + decimal(s.len()) + "<"@ + java_types(cfg, ctx, s) + ">"@,
        FormatV::TupleArray { content, size } => "java.util.@com.novi.serde.ArrayLen(length="@ + decimal(size as nat)
            + ") List<"@ + java_type(cfg, ctx, *content) + ">"@,
    }
}

/// The Java types of `s`, separated by `", "`.
pub open spec fn java_types(cfg: JavaConfig, ctx: JavaContext, s: Seq<FormatV>) -> Seq<char>
    decreases s,
{
    if s.len() == 0 {
        Seq::empty()
    } else if s.len() == 1 {
        java_type(cfg, ctx, s.last())
    } else {
        java_types(cfg, ctx, s.drop_last()) + ", "@ + java_type(cfg, ctx, s.last())
    }
}

/// The statement that serializes `value` of format `f`: a named type serializes itself, a
/// primitive goes to the serializer, a composite format to its helper.
pub open spec fn java_serialize_value(cfg: JavaConfig, ctx: JavaContext, value: Seq<char>, f: FormatV) -> Seq<char> {
    match f {
        FormatV::TypeName(_) => value + ".serialize(serializer);"@,
        _ => if is_primitive(f) {
            "serializer.serialize_"@ + primitive_name(f) + "("@ + value + ");"@
        } else {
            java_quote_name(cfg, ctx, "TraitHelpers"@) + ".serialize_"@ + mangled(f) + "("@ + value + ", serializer);"@
        },
    }
}

/// The expression that deserializes a value of format `f`.
pub open spec fn java_deserialize(cfg: JavaConfig, ctx: JavaContext, f: FormatV) -> Seq<char> {
    match f {
        FormatV::TypeName(q) => java_quote_name(cfg, ctx, q.name) + ".deserialize(deserializer)"@,
        _ => if is_primitive(f) {
            "deserializer.deserialize_"@ + primitive_name(f) + "()"@
        } else {
            java_quote_name(cfg, ctx, "TraitHelpers"@) + ".deserialize_"@ + mangled(f) + "(deserializer)"@
        },
    }
}

/// Shared state for the emission of a Java source file.
pub struct JavaEmitter<'a> {
    /// Writer.
    pub out: IndentedWriter,
    /// Generator.
    pub generator: &'a CodeGenerator<'a>,
    /// Current namespace: the package's segments, then the enclosing classes.
    pub current_namespace: Vec<String>,
    /// For each enclosing class, innermost last, the names of nested classes that could
    /// clash with names of the registry (such as `Builder`, or the variants of an enum).
    pub current_reserved_names: Vec<Vec<String>>,
}

impl<'a> JavaEmitter<'a> {
    /// The configuration of the generator.
    pub open spec fn cfg(&self) -> JavaConfig {
        java_config(*self.generator.config)
    }

    /// Where the emitter stands.
    pub open spec fn context(&self) -> JavaContext {
        JavaContext {
            ns: strings_view(self.current_namespace@),
            reserved: self.current_reserved_names@.map_values(|f: Vec<String>| strings_view(f@)),
        }
    }

    /// An emitter that writes into `out`, in `namespace`, no class enclosing it.
    pub fn new(out: IndentedWriter, generator: &'a CodeGenerator<'a>, namespace: Vec<String>) -> (e: JavaEmitter<'a>)
        ensures
            e.out@ == out@,
            e.generator == generator,
            e.context() == (JavaContext { ns: strings_view(namespace@), reserved: Seq::empty() }),
    {
        let e = JavaEmitter { out, generator, current_namespace: namespace, current_reserved_names: Vec::new() };
        assert(e.context().reserved =~= Seq::<Seq<Seq<char>>>::empty());
        e
    }

    fn is_reserved_name(&self, name: &str) -> (b: bool)
        ensures
            b == is_reserved(self.context(), name@),
    {
        let ghost ctx = self.context();
        let mut i: usize = 0;
        while i < self.current_reserved_names.len()
            invariant
                i <= self.current_reserved_names.len(),
                ctx == self.context(),
                forall|a: int, b: int| 0 <= a < i && 0 <= b < ctx.reserved[a].len() ==> ctx.reserved[a][b] != name@,
            decreases self.current_reserved_names.len() - i,
        {
            let frame = &self.current_reserved_names[i];
            let mut j: usize = 0;
            while j < frame.len()
                invariant
                    i < self.current_reserved_names.len(),
                    frame == self.current_reserved_names@[i as int],
                    ctx == self.context(),
                    ctx.reserved[i as int] == strings_view(frame@),
                    j <= frame.len(),
                    forall|a: int, b: int| 0 <= a < i && 0 <= b < ctx.reserved[a].len() ==> ctx.reserved[a][b] != name@,
                    forall|b: int| 0 <= b < j ==> ctx.reserved[i as int][b] != name@,
                decreases frame.len() - j,
            {
                if str_eq(frame[j].as_str(), name) {
                    assert(ctx.reserved[i as int][j as int] == name@);
                    return true;
                }
                j = j + 1;
            }
            i = i + 1;
        }
        false
    }

    /// A reference to the type `name`, qualified as far as the context needs.
    fn quote_qualified_name(&self, name: &str) -> (r: String)
        requires
            self.generator.wf(),
        ensures
            r@ == java_quote_name(self.cfg(), self.context(), name@),
    {
        let key = String::from_str(name);
        let qname = match self.generator.external_qualified_names.get(&key) {
            Some(q) => q.clone(),
            None => {
                let mut q = concat(self.generator.config.module_name(), ".");
                q.append(name);
                q
            },
        };
        assert(qname@ == java_qname(self.cfg(), name@));
        let path = split_text(qname.as_str(), '.');
        let ghost p = split_on(qname@, '.');
        if path.len() <= 1 {
            return qname;
        }
        let last = &path[path.len() - 1];
        assert(last@ == p.last());
        if self.is_reserved_name(last.as_str()) {
            return qname;
        }
        let mut i: usize = 0;
        while i < path.len() - 1
            invariant
                path.len() >= 2,
                strings_view(path@) == p,
                p == split_on(qname@, '.'),
                qname@ == java_qname(self.cfg(), name@),
                !is_reserved(self.context(), p.last()),
                i <= path.len() - 1,
                forall|k: int| 0 <= k < i ==> k < self.context().ns.len() && self.context().ns[k] == p[k],
            decreases path.len() - 1 - i,
        {
            if i >= self.current_namespace.len() || !str_eq(self.current_namespace[i].as_str(), path[i].as_str()) {
                proof {
                    assert(!namespace_prefix(p.drop_last(), self.context().ns)) by {
                        if i < self.current_namespace.len() {
                            assert(self.context().ns[i as int] != p.drop_last()[i as int]);
                        }
                    }
                }
                return qname;
            }
            i = i + 1;
        }
        assert(p.drop_last().len() == i);
        assert(p[i - 1] == p[i - 1]);
        assert(i - 1 < self.context().ns.len());
        assert forall|k: int| 0 <= k < p.drop_last().len() implies self.context().ns[k] == p.drop_last()[k] by {
            assert(p.drop_last()[k] == p[k]);
        }
        assert(namespace_prefix(p.drop_last(), self.context().ns));
        last.clone()
    }

    /// The Java type of a format.
    fn quote_type(&self, f: &Format) -> (r: String)
        requires
            self.generator.wf(),
        ensures
            r@ == java_type(self.cfg(), self.context(), f@),
        decreases f, 0nat,
    {
        match f {
            Format::TypeName(q) => self.quote_qualified_name(q.name.as_str()),
            Format::Unit => String::from_str("com.novi.serde.Unit"),
            Format::Bool => String::from_str("Boolean"),
            Format::I8 => String::from_str("Byte"),
            Format::I16 => String::from_str("Short"),
            Format::I32 => String::from_str("Integer"),
            Format::I64 => String::from_str("Long"),
            Format::I128 => String::from_str("java.math.@com.novi.serde.Int128 BigInteger"),
            Format::U8 => String::from_str("@com.novi.serde.Unsigned Byte"),
            Format::U16 => String::from_str("@com.novi.serde.Unsigned Short"),
            Format::U32 => String::from_str("@com.novi.serde.Unsigned Integer"),
            Format::U64 => String::from_str("@com.novi.serde.Unsigned Long"),
            Format::U128 => String::from_str("java.math.@com.novi.serde.Unsigned @com.novi.serde.Int128 BigInteger"),
            Format::F32 => String::from_str("Float"),
            Format::F64 => String::from_str("Double"),
            Format::Char => String::from_str("Character"),
            Format::Str => String::from_str("String"),
            Format::Bytes => String::from_str("com.novi.serde.Bytes"),
            Format::Option(g) => concat3("java.util.Optional<", self.quote_type(g).as_str(), ">"),
            Format::Sequence(g) => concat3("java.util.List<", self.quote_type(g).as_str(), ">"),
            Format::SetOf(g) => concat3("java.util.List<", self.quote_type(g).as_str(), ">"),
            Format::MapOf { key, value } => {
                let mut r = concat4("java.util.Map<", self.quote_type(key).as_str(), ", ", self.quote_type(value).as_str());
                r.append(">");
                r
            },
            Format::Tuple(v) => {
                proof {
                    lemma_formats_view(v@);
                }
                let mut r = concat4("com.novi.serde.Tuple", usize_to_string(v.len()).as_str(), "<", self.quote_types(v).as_str());
                r.append(">");
                r
            },
            Format::TupleArray { content, size } => {
                let mut r = concat3("java.util.@com.novi.serde.ArrayLen(length=", usize_to_string(*size).as_str(), ") List<");
                r.append(self.quote_type(content).as_str());
                r.append(">");
                r
            },
        }
    }

    /// The Java types of `v`, separated by `", "`.
    fn quote_types(&self, v: &Vec<Format>) -> (r: String)
        requires
            self.generator.wf(),
        ensures
            r@ == java_types(self.cfg(), self.context(), formats_view(v@)),
        decreases v@, 1nat,
    {
        let ghost cfg = self.cfg();
        let ghost ctx = self.context();
        let mut out = String::new();
        let mut i: usize = 0;
        proof {
            assert(v@.take(0) =~= Seq::<Format>::empty());
        }
        while i < v.len()
            invariant
                i <= v.len(),
                self.generator.wf(),
                cfg == self.cfg(),
                ctx == self.context(),
                out@ == java_types(cfg, ctx, formats_view(v@.take(i as int))),
            decreases v.len() - i,
        {
            proof {
                assert(decreases_to!(v@ => v@[i as int]));
                assert(v@.take(i + 1).drop_last() =~= v@.take(i as int));
            }
            let ghost before = out@;
            if i > 0 {
                out.append(", ");
            }
            let t = self.quote_type(&v[i]);
            out.append(t.as_str());
            proof {
                let s = formats_view(v@.take(i + 1));
                lemma_formats_view(v@.take(i + 1));
                lemma_formats_view(v@.take(i as int));
                assert(s.drop_last() == formats_view(v@.take(i as int)));
                assert(s.last() == v@[i as int]@);
                if i == 0 {
                    assert(out@ =~= t@);
                } else {
                    assert(out@ =~= before + ", "@ + t@);
                }
            }
            i = i + 1;
        }
        assert(v@.take(v.len() as int) =~= v@);
        out
    }

    /// The statement that serializes `value` of format `f`.
    fn quote_serialize_value(&self, value: &str, f: &Format) -> (r: String)
        requires
            self.generator.wf(),
        ensures
            r@ == java_serialize_value(self.cfg(), self.context(), value@, f@),
    {
        match f {
            Format::TypeName(_) => concat(value, ".serialize(serializer);"),
            _ => if format_is_primitive(f) {
                let mut r = concat4("serializer.serialize_", primitive_name_str(f), "(", value);
                r.append(");");
                r
            } else {
                proof {
                    reveal_strlit("TraitHelpers");
                }
                let mut r = concat3(self.quote_qualified_name("TraitHelpers").as_str(), ".serialize_", mangle_type(f).as_str());
                r.append("(");
                r.append(value);
                r.append(", serializer);");
                r
            },
        }
    }

    /// The expression that deserializes a value of format `f`.
    fn quote_deserialize(&self, f: &Format) -> (r: String)
        requires
            self.generator.wf(),
        ensures
            r@ == java_deserialize(self.cfg(), self.context(), f@),
    {
        match f {
            Format::TypeName(q) => concat(self.quote_qualified_name(q.name.as_str()).as_str(), ".deserialize(deserializer)"),
            _ => if format_is_primitive(f) {
                concat3("deserializer.deserialize_", primitive_name_str(f), "()")
            } else {
                proof {
                    reveal_strlit("TraitHelpers");
                }
                let mut r = concat3(self.quote_qualified_name("TraitHelpers").as_str(), ".deserialize_", mangle_type(f).as_str());
                r.append("(deserializer)");
                r
            },
        }
    }
}

/// Writes the lines `ls`, one after the other.
pub open spec fn put_lines(w: WriterState, ls: Seq<Seq<char>>) -> WriterState
    decreases ls.len(),
{
    if ls.len() == 0 {
        w
    } else {
        put_line(put_lines(w, ls.drop_last()), ls.last())
    }
}

/// The documentation comment of the item `name` in `ctx`, if the configuration has one:
/// its lines after ` * `, between `/**` and ` */`.
pub open spec fn java_comment(w: WriterState, cfg: JavaConfig, ctx: JavaContext, name: Seq<char>) -> WriterState {
    match path_lookup(cfg.comments, ctx.ns.push(name)) {
        Some(doc) => put_line(
            w,
            "/**\n"@ + replace_all(textwrap_indent(doc, " * "@), "\n\n"@, "\n *\n"@) + " */"@,
        ),
        None => w,
    }
}

/// The custom code of the class that `ctx` stands in, if the configuration has some,
/// after an empty line.
pub open spec fn java_custom_code(w: WriterState, cfg: JavaConfig, ctx: JavaContext) -> WriterState {
    match path_lookup(cfg.custom_code, ctx.ns) {
        Some(code) => put_line(w, "\n"@ + code),
        None => w,
    }
}

/// The method that serializes an object with `encoding` into bytes.
pub open spec fn java_class_serialize(w: WriterState, encoding: Encoding) -> WriterState {
    let e = encoding_name(encoding);
    put_line(
        w,
        "\npublic byte[] "@ + e + "Serialize() throws com.novi.serde.SerializationError {\n    com.novi.serde.Serializer serializer = new com.novi."@
            + e + "."@ + upper_camel_case(e)
            + "Serializer();\n    serialize(serializer);\n    return serializer.get_bytes();\n}"@,
    )
}

/// The method that deserializes an object of class `name` with `encoding` from bytes.
pub open spec fn java_class_deserialize(w: WriterState, encoding: Encoding, name: Seq<char>) -> WriterState {
    let e = encoding_name(encoding);
    put_line(
        w,
        "\npublic static "@ + name + " "@ + e
            + "Deserialize(byte[] input) throws com.novi.serde.DeserializationError {\n    if (input == null) {\n         throw new com.novi.serde.DeserializationError(\"Cannot deserialize null array\");\n    }\n    com.novi.serde.Deserializer deserializer = new com.novi."@
            + e + "."@ + upper_camel_case(e) + "Deserializer(input);\n    "@ + name
            + " value = deserialize(deserializer);\n    if (deserializer.get_buffer_offset() < input.length) {\n         throw new com.novi.serde.DeserializationError(\"Some input bytes were not read\");\n    }\n    return value;\n}"@,
    )
}

impl<'a> JavaEmitter<'a> {
    /// The package declaration.
    pub fn output_preamble(&mut self)
        ensures
            final(self).out@ == put_str(old(self).out@, "package "@ + old(self).cfg().module_name + ";\n\n"@),
            final(self).generator == old(self).generator,
            final(self).context() == old(self).context(),
    {
        let text = concat3("package ", self.generator.config.module_name(), ";\n\n");
        self.out.write_string(&text);
    }

    fn output_comment(&mut self, name: &str)
        ensures
            final(self).out@ == java_comment(old(self).out@, old(self).cfg(), final(self).context(), name@),
            final(self).generator == old(self).generator,
            final(self).context() == old(self).context(),
    {
        let mut path: Vec<String> = Vec::new();
        let mut i: usize = 0;
        while i < self.current_namespace.len()
            invariant
                i <= self.current_namespace.len(),
                path@.len() == i,
                forall|k: int| 0 <= k < i ==> (#[trigger] path@[k])@ == self.current_namespace@[k]@,
            decreases self.current_namespace.len() - i,
        {
            path.push(self.current_namespace[i].clone());
            i = i + 1;
        }
        path.push(String::from_str(name));
        assert(path_view(path@) =~= self.context().ns.push(name@));
        match self.generator.config.comments.get(&path) {
            Some(doc) => {
                proof {
                    reveal_strlit("\n\n");
                }
                let text = replace_text(indent_lines(doc.as_str(), " * ").as_str(), "\n\n", "\n *\n");
                let mut line = concat3("/**\n", text.as_str(), " */");
                self.out.write_line(line.as_str());
            },
            None => {},
        }
    }

    fn output_custom_code(&mut self)
        ensures
            final(self).out@ == java_custom_code(old(self).out@, old(self).cfg(), final(self).context()),
            final(self).generator == old(self).generator,
            final(self).context() == old(self).context(),
    {
        match self.generator.config.custom_code.get(&self.current_namespace) {
            Some(code) => self.out.write_line(concat("\n", code.as_str()).as_str()),
            None => {},
        }
    }

    /// Enters the class `name`, which reserves `reserved` for its nested classes.
    fn enter_class(&mut self, name: &str, reserved: Vec<String>)
        ensures
            final(self).out@ == indented(old(self).out@),
            final(self).generator == old(self).generator,
            final(self).context() == entered(old(self).context(), name@, strings_view(reserved@)),
            final(self).current_namespace@.len() == old(self).current_namespace@.len() + 1,
            final(self).current_reserved_names@.len() == old(self).current_reserved_names@.len() + 1,
    {
        self.out.indent();
        self.current_namespace.push(String::from_str(name));
        self.current_reserved_names.push(reserved);
        assert(self.context().ns =~= old(self).context().ns.push(name@));
        assert(self.context().reserved =~= old(self).context().reserved.push(strings_view(reserved@)));
    }

    /// Leaves the innermost class.
    fn leave_class(&mut self)
        requires
            old(self).context().ns.len() > 0,
            old(self).context().reserved.len() > 0,
        ensures
            final(self).out@ == unindented(old(self).out@),
            final(self).generator == old(self).generator,
            final(self).context().ns == old(self).context().ns.drop_last(),
            final(self).context().reserved == old(self).context().reserved.drop_last(),
            final(self).current_namespace@.len() == old(self).current_namespace@.len() - 1,
            final(self).current_reserved_names@.len() == old(self).current_reserved_names@.len() - 1,
    {
        self.out.unindent();
        self.current_namespace.pop();
        self.current_reserved_names.pop();
        assert(self.context().ns =~= old(self).context().ns.drop_last());
        assert(self.context().reserved =~= old(self).context().reserved.drop_last());
    }

    fn output_class_serialize_for_encoding(&mut self)
        ensures
            final(self).out@ == java_class_serialize(old(self).out@, old(self).cfg().encoding),
            final(self).generator == old(self).generator,
            final(self).context() == old(self).context(),
    {
        let e = self.generator.config.encoding.name();
        let mut text = concat3("\npublic byte[] ", e, "Serialize() throws com.novi.serde.SerializationError {\n    com.novi.serde.Serializer serializer = new com.novi.");
        text.append(e);
        text.append(".");
        text.append(to_upper_camel_case(e).as_str());
        text.append("Serializer();\n    serialize(serializer);\n    return serializer.get_bytes();\n}");
        self.out.write_line(text.as_str());
    }

    fn output_class_deserialize_for_encoding(&mut self, name: &str)
        ensures
            final(self).out@ == java_class_deserialize(old(self).out@, old(self).cfg().encoding, name@),
            final(self).generator == old(self).generator,
            final(self).context() == old(self).context(),
    {
        let e = self.generator.config.encoding.name();
        let mut text = concat4("\npublic static ", name, " ", e);
        text.append(
            "Deserialize(byte[] input) throws com.novi.serde.DeserializationError {\n    if (input == null) {\n         throw new com.novi.serde.DeserializationError(\"Cannot deserialize null array\");\n    }\n    com.novi.serde.Deserializer deserializer = new com.novi.",
        );
        text.append(e);
        text.append(".");
        text.append(to_upper_camel_case(e).as_str());
        text.append("Deserializer(input);\n    ");
        text.append(name);
        text.append(
            " value = deserialize(deserializer);\n    if (deserializer.get_buffer_offset() < input.length) {\n         throw new com.novi.serde.DeserializationError(\"Some input bytes were not read\");\n    }\n    return value;\n}",
        );
        self.out.write_line(text.as_str());
    }
}

/// The line, or the part of a line, that a class writes for each of its fields.
#[derive(Clone, Copy)]
pub enum FieldLine {
    /// A constructor parameter: `Type name`.
    Param,
    /// A null check in the constructor.
    Require,
    /// An assignment in the constructor.
    Assign,
    /// Serializing the field.
    Serialize,
    /// Deserializing the field into the builder.
    Deserialize,
    /// Comparing the field in `equals`.
    Equals,
    /// Mixing the field into the hash code.
    Hash,
    /// A field of the builder.
    BuilderField,
    /// An argument of the constructor called by the builder.
    BuildArg,
}

/// What a class writes for the field `f` in `ctx`.
pub open spec fn java_field_line(cfg: JavaConfig, ctx: JavaContext, kind: FieldLine, f: NamedV<FormatV>) -> Seq<char> {
    let n = f.name;
    match kind {
        FieldLine::Param => java_type(cfg, ctx, f.value) + " "@ + n,
        FieldLine::Require => "java.util.Objects.requireNonNull("@ + n + ", \""@ + n + " must not be null\");"@,
        FieldLine::Assign => "this."@ + n + " = "@ + n + ";"@,
        FieldLine::Serialize => java_serialize_value(cfg, ctx, n, f.value),
        FieldLine::Deserialize => "builder."@ + n + " = "@ + java_deserialize(cfg, ctx, f.value) + ";"@,
        FieldLine::Equals => "if (!java.util.Objects.equals(this."@ + n + ", other."@ + n + ")) { return false; }"@,
        FieldLine::Hash => "value = 31 * value + (this."@ + n + " != null ? this."@ + n + ".hashCode() : 0);"@,
        FieldLine::BuilderField => "public "@ + java_type(cfg, ctx, f.value) + " "@ + n + ";"@,
        FieldLine::BuildArg => "\n        "@ + n,
    }
}

/// What a class writes for each of `fields`, in order.
pub open spec fn java_field_lines(cfg: JavaConfig, ctx: JavaContext, kind: FieldLine, fields: Seq<NamedV<FormatV>>) -> Seq<Seq<char>> {
    fields.map_values(|f: NamedV<FormatV>| java_field_line(cfg, ctx, kind, f))
}

impl<'a> JavaEmitter<'a> {
    fn field_line(&self, kind: FieldLine, f: &Named<Format>) -> (r: String)
        requires
            self.generator.wf(),
        ensures
            r@ == java_field_line(self.cfg(), self.context(), kind, f@),
    {
        let n = f.name.as_str();
        match kind {
            FieldLine::Param => concat3(self.quote_type(&f.value).as_str(), " ", n),
            FieldLine::Require => {
                let mut r = concat4("java.util.Objects.requireNonNull(", n, ", \"", n);
                r.append(" must not be null\");");
                r
            },
            FieldLine::Assign => {
                let mut r = concat4("this.", n, " = ", n);
                r.append(";");
                r
            },
            FieldLine::Serialize => self.quote_serialize_value(n, &f.value),
            FieldLine::Deserialize => {
                let mut r = concat4("builder.", n, " = ", self.quote_deserialize(&f.value).as_str());
                r.append(";");
                r
            },
            FieldLine::Equals => {
                let mut r = concat4("if (!java.util.Objects.equals(this.", n, ", other.", n);
                r.append(")) { return false; }");
                r
            },
            FieldLine::Hash => {
                let mut r = concat4("value = 31 * value + (this.", n, " != null ? this.", n);
                r.append(".hashCode() : 0);");
                r
            },
            FieldLine::BuilderField => {
                let mut r = concat4("public ", self.quote_type(&f.value).as_str(), " ", n);
                r.append(";");
                r
            },
            FieldLine::BuildArg => concat("\n        ", n),
        }
    }

    fn field_lines(&self, kind: FieldLine, fields: &Vec<Named<Format>>) -> (r: Vec<String>)
        requires
            self.generator.wf(),
        ensures
            strings_view(r@) == java_field_lines(self.cfg(), self.context(), kind, seq_view(fields@)),
    {
        let mut lines: Vec<String> = Vec::new();
        let mut i: usize = 0;
        while i < fields.len()
            invariant
                i <= fields.len(),
                self.generator.wf(),
                lines@.len() == i,
                forall|j: int| 0 <= j < i ==> (#[trigger] lines@[j])@ == java_field_line(self.cfg(), self.context(), kind, fields@[j]@),
            decreases fields.len() - i,
        {
            lines.push(self.field_line(kind, &fields[i]));
            i = i + 1;
        }
        assert(strings_view(lines@) =~= java_field_lines(self.cfg(), self.context(), kind, seq_view(fields@)));
        lines
    }

    fn write_lines(&mut self, lines: &Vec<String>)
        ensures
            final(self).out@ == put_lines(old(self).out@, strings_view(lines@)),
            final(self).generator == old(self).generator,
            final(self).context() == old(self).context(),
    {
        let ghost start = self.out@;
        let mut i: usize = 0;
        while i < lines.len()
            invariant
                i <= lines.len(),
                self.generator == old(self).generator,
                self.context() == old(self).context(),
                self.out@ == put_lines(start, strings_view(lines@).take(i as int)),
            decreases lines.len() - i,
        {
            self.out.write_line(lines[i].as_str());
            assert(strings_view(lines@).take(i + 1).drop_last() =~= strings_view(lines@).take(i as int));
            i = i + 1;
        }
        assert(strings_view(lines@).take(lines.len() as int) =~= strings_view(lines@));
    }
}

/// The nested `Builder` class of the class `name`, written in `ctx` (inside the class).
pub open spec fn java_builder(
    w: WriterState,
    cfg: JavaConfig,
    ctx: JavaContext,
    name: Seq<char>,
    fields: Seq<NamedV<FormatV>>,
) -> WriterState {
    let c = entered(ctx, "Builder"@, Seq::empty());
    let w = indented(put_line(put_newline(w), "public static final class Builder {"@));
    let w = put_lines(w, java_field_lines(cfg, c, FieldLine::BuilderField, fields));
    let w = if fields.len() > 0 { put_newline(w) } else { w };
    let w = put_line(
        w,
        "public "@ + name + " build() {\n    return new "@ + name + "("@ + joined(java_field_lines(cfg, c, FieldLine::BuildArg, fields), ","@)
            + "\n    );\n}"@,
    );
    put_line(unindented(java_custom_code(w, cfg, c)), "}"@)
}

/// Serialization of a class, written in `ctx` (inside the class): `serialize`, and
/// `deserialize` for a type or `load` for a variant with its index; for a type also the
/// methods to and from bytes.
pub open spec fn java_serialization(
    w: WriterState,
    cfg: JavaConfig,
    ctx: JavaContext,
    index: Option<u32>,
    name: Seq<char>,
    fields: Seq<NamedV<FormatV>>,
) -> WriterState {
    let w = put_line(w, "\npublic void serialize(com.novi.serde.Serializer serializer) throws com.novi.serde.SerializationError {"@);
    let w = put_line(indented(w), "serializer.increase_container_depth();"@);
    let w = match index {
        Some(i) => put_line(w, "serializer.serialize_variant_index("@ + decimal(i as nat) + ");"@),
        None => w,
    };
    let w = put_lines(w, java_field_lines(cfg, ctx, FieldLine::Serialize, fields));
    let w = put_line(unindented(put_line(w, "serializer.decrease_container_depth();"@)), "}"@);
    let w = if index is None { java_class_serialize(w, cfg.encoding) } else { w };
    let w = put_line(
        w,
        if index is None {
            "\npublic static "@ + name + " deserialize(com.novi.serde.Deserializer deserializer) throws com.novi.serde.DeserializationError {"@
        } else {
            "\nstatic "@ + name + " load(com.novi.serde.Deserializer deserializer) throws com.novi.serde.DeserializationError {"@
        },
    );
    let w = put_line(put_line(indented(w), "deserializer.increase_container_depth();"@), "Builder builder = new Builder();"@);
    let w = put_lines(w, java_field_lines(cfg, ctx, FieldLine::Deserialize, fields));
    let w = put_line(put_line(w, "deserializer.decrease_container_depth();"@), "return builder.build();"@);
    let w = put_line(unindented(w), "}"@);
    if index is None { java_class_deserialize(w, cfg.encoding, name) } else { w }
}

/// `equals` and `hashCode` of the class `name`, written in `ctx` (inside the class).
pub open spec fn java_equality(w: WriterState, cfg: JavaConfig, ctx: JavaContext, name: Seq<char>, fields: Seq<NamedV<FormatV>>) -> WriterState {
    let w = indented(put_str(w, "\npublic boolean equals(Object obj) {"@));
    let w = put_line(
        w,
        "\nif (this == obj) return true;\nif (obj == null) return false;\nif (getClass() != obj.getClass()) return false;\n"@ + name
            + " other = ("@ + name + ") obj;"@,
    );
    let w = put_lines(w, java_field_lines(cfg, ctx, FieldLine::Equals, fields));
    let w = put_line(unindented(put_line(w, "return true;"@)), "}"@);
    let w = put_line(indented(put_line(w, "\npublic int hashCode() {"@)), "int value = 7;"@);
    let w = put_lines(w, java_field_lines(cfg, ctx, FieldLine::Hash, fields));
    put_line(unindented(put_line(w, "return value;"@)), "}"@)
}

/// A final class for a type (`base` is `None`), or a static nested class extending `base`
/// for the variant of index `index`: its fields, constructor, serialization under an
/// encoding, equality, hashing and builder.
pub open spec fn java_struct(
    w: WriterState,
    cfg: JavaConfig,
    ctx: JavaContext,
    base: Option<Seq<char>>,
    index: Option<u32>,
    name: Seq<char>,
    fields: Seq<NamedV<FormatV>>,
) -> WriterState {
    let c = entered(ctx, name, seq!["Builder"@]);
    let w = java_comment(put_newline(w), cfg, ctx, name);
    let w = put_line(
        w,
        match base {
            Some(b) => "public static final class "@ + name + " extends "@ + b + " {"@,
            None => "public final class "@ + name + " {"@,
        },
    );
    let w = java_field_decls(indented(w), cfg, c, fields);
    let w = if fields.len() > 0 { put_newline(w) } else { w };
    let w = put_line(w, "public "@ + name + "("@ + joined(java_field_lines(cfg, c, FieldLine::Param, fields), ", "@) + ") {"@);
    let w = put_lines(indented(w), java_field_lines(cfg, c, FieldLine::Require, fields));
    let w = put_lines(w, java_field_lines(cfg, c, FieldLine::Assign, fields));
    let w = put_line(unindented(w), "}"@);
    let w = if cfg.encoding != Encoding::Plain { java_serialization(w, cfg, c, index, name, fields) } else { w };
    let w = java_equality(w, cfg, c, name, fields);
    let w = java_custom_code(java_builder(w, cfg, c, name, fields), cfg, c);
    put_line(unindented(w), "}"@)
}

/// The field declarations of a class, each after its documentation comment.
pub open spec fn java_field_decls(w: WriterState, cfg: JavaConfig, ctx: JavaContext, fields: Seq<NamedV<FormatV>>) -> WriterState
    decreases fields.len(),
{
    if fields.len() == 0 {
        w
    } else {
        let w = java_field_decls(w, cfg, ctx, fields.drop_last());
        let f = fields.last();
        put_line(java_comment(w, cfg, ctx, f.name), "public final "@ + java_type(cfg, ctx, f.value) + " "@ + f.name + ";"@)
    }
}

impl<'a> JavaEmitter<'a> {
    fn output_field_decls(&mut self, fields: &Vec<Named<Format>>)
        requires
            old(self).generator.wf(),
        ensures
            final(self).out@ == java_field_decls(old(self).out@, old(self).cfg(), old(self).context(), seq_view(fields@)),
            final(self).generator == old(self).generator,
            final(self).context() == old(self).context(),
    {
        let ghost start = self.out@;
        let ghost fs = seq_view(fields@);
        let mut i: usize = 0;
        assert(fs.take(0) =~= Seq::<NamedV<FormatV>>::empty());
        while i < fields.len()
            invariant
                i <= fields.len() == fs.len(),
                fs == seq_view(fields@),
                self.generator == old(self).generator,
                self.generator.wf(),
                self.context() == old(self).context(),
                self.out@ == java_field_decls(start, self.cfg(), self.context(), fs.take(i as int)),
            decreases fields.len() - i,
        {
            let f = &fields[i];
            self.output_comment(f.name.as_str());
            let mut line = concat3("public final ", self.quote_type(&f.value).as_str(), " ");
            line.append(f.name.as_str());
            line.append(";");
            self.out.write_line(line.as_str());
            assert(fs.take(i + 1).drop_last() =~= fs.take(i as int));
            i = i + 1;
        }
        assert(fs.take(fields.len() as int) =~= fs);
    }

    fn output_struct_or_variant_container_builder(&mut self, name: &str, fields: &Vec<Named<Format>>)
        requires
            old(self).generator.wf(),
        ensures
            final(self).out@ == java_builder(old(self).out@, old(self).cfg(), old(self).context(), name@, seq_view(fields@)),
            final(self).generator == old(self).generator,
            final(self).context() == old(self).context(),
    {
        let ghost ctx = self.context();
        self.out.newline();
        self.out.write_line("public static final class Builder {");
        proof {
            reveal_strlit("Builder");
        }
        let none: Vec<String> = Vec::new();
        assert(strings_view(none@) =~= Seq::<Seq<char>>::empty());
        self.enter_class("Builder", none);
        let lines = self.field_lines(FieldLine::BuilderField, fields);
        self.write_lines(&lines);
        if fields.len() > 0 {
            self.out.newline();
        }
        let args = self.field_lines(FieldLine::BuildArg, fields);
        let mut text = concat4("public ", name, " build() {\n    return new ", name);
        text.append("(");
        text.append(join_with(&args, ",").as_str());
        text.append("\n    );\n}");
        self.out.write_line(text.as_str());
        self.output_custom_code();
        self.leave_class();
        assert(self.context().ns =~= ctx.ns);
        assert(self.context().reserved =~= ctx.reserved);
        self.out.write_line("}");
    }

    fn output_serialization(&mut self, index: Option<u32>, name: &str, fields: &Vec<Named<Format>>)
        requires
            old(self).generator.wf(),
        ensures
            final(self).out@ == java_serialization(old(self).out@, old(self).cfg(), old(self).context(), index, name@, seq_view(fields@)),
            final(self).generator == old(self).generator,
            final(self).context() == old(self).context(),
    {
        self.out.write_line("\npublic void serialize(com.novi.serde.Serializer serializer) throws com.novi.serde.SerializationError {");
        self.out.indent();
        self.out.write_line("serializer.increase_container_depth();");
        match index {
            Some(i) => {
                let mut line = concat3("serializer.serialize_variant_index(", usize_to_string(i as usize).as_str(), ");");
                self.out.write_line(line.as_str());
            },
            None => {},
        }
        let lines = self.field_lines(FieldLine::Serialize, fields);
        self.write_lines(&lines);
        self.out.write_line("serializer.decrease_container_depth();");
        self.out.unindent();
        self.out.write_line("}");
        if index.is_none() {
            self.output_class_serialize_for_encoding();
        }
        if index.is_none() {
            self.out.write_line(
                concat3(
                    "\npublic static ",
                    name,
                    " deserialize(com.novi.serde.Deserializer deserializer) throws com.novi.serde.DeserializationError {",
                ).as_str(),
            );
        } else {
            self.out.write_line(
                concat3(
                    "\nstatic ",
                    name,
                    " load(com.novi.serde.Deserializer deserializer) throws com.novi.serde.DeserializationError {",
                ).as_str(),
            );
        }
        self.out.indent();
        self.out.write_line("deserializer.increase_container_depth();");
        self.out.write_line("Builder builder = new Builder();");
        let lines = self.field_lines(FieldLine::Deserialize, fields);
        self.write_lines(&lines);
        self.out.write_line("deserializer.decrease_container_depth();");
        self.out.write_line("return builder.build();");
        self.out.unindent();
        self.out.write_line("}");
        if index.is_none() {
            self.output_class_deserialize_for_encoding(name);
        }
    }

    fn output_equality(&mut self, name: &str, fields: &Vec<Named<Format>>)
        requires
            old(self).generator.wf(),
        ensures
            final(self).out@ == java_equality(old(self).out@, old(self).cfg(), old(self).context(), name@, seq_view(fields@)),
            final(self).generator == old(self).generator,
            final(self).context() == old(self).context(),
    {
        self.out.write_str("\npublic boolean equals(Object obj) {");
        self.out.indent();
        let mut text = concat3(
            "\nif (this == obj) return true;\nif (obj == null) return false;\nif (getClass() != obj.getClass()) return false;\n",
            name,
            " other = (",
        );
        text.append(name);
        text.append(") obj;");
        self.out.write_line(text.as_str());
        let lines = self.field_lines(FieldLine::Equals, fields);
        self.write_lines(&lines);
        self.out.write_line("return true;");
        self.out.unindent();
        self.out.write_line("}");
        self.out.write_line("\npublic int hashCode() {");
        self.out.indent();
        self.out.write_line("int value = 7;");
        let lines = self.field_lines(FieldLine::Hash, fields);
        self.write_lines(&lines);
        self.out.write_line("return value;");
        self.out.unindent();
        self.out.write_line("}");
    }

    /// Writes the class of a type (no `variant_base`) or of a variant.
    pub fn output_struct_or_variant_container(
        &mut self,
        variant_base: Option<&str>,
        variant_index: Option<u32>,
        name: &str,
        fields: &Vec<Named<Format>>,
    )
        requires
            old(self).generator.wf(),
        ensures
            final(self).out@ == java_struct(
                old(self).out@,
                old(self).cfg(),
                old(self).context(),
                match variant_base {
                    Some(b) => Some(b@),
                    None => None,
                },
                variant_index,
                name@,
                seq_view(fields@),
            ),
            final(self).generator == old(self).generator,
            final(self).context() == old(self).context(),
    {
        let ghost ctx = self.context();
        self.out.newline();
        self.output_comment(name);
        match variant_base {
            Some(base) => {
                let mut line = concat4("public static final class ", name, " extends ", base);
                line.append(" {");
                self.out.write_line(line.as_str());
            },
            None => self.out.write_line(concat3("public final class ", name, " {").as_str()),
        }
        proof {
            reveal_strlit("Builder");
        }
        let reserved = vec![String::from_str("Builder")];
        assert(strings_view(reserved@) =~= seq!["Builder"@]);
        self.enter_class(name, reserved);
        self.output_field_decls(fields);
        if fields.len() > 0 {
            self.out.newline();
        }
        let params = self.field_lines(FieldLine::Param, fields);
        let mut line = concat4("public ", name, "(", join_with(&params, ", ").as_str());
        line.append(") {");
        self.out.write_line(line.as_str());
        self.out.indent();
        let lines = self.field_lines(FieldLine::Require, fields);
        self.write_lines(&lines);
        let lines = self.field_lines(FieldLine::Assign, fields);
        self.write_lines(&lines);
        self.out.unindent();
        self.out.write_line("}");
        if self.generator.config.has_encoding() {
            self.output_serialization(variant_index, name, fields);
        }
        self.output_equality(name, fields);
        self.output_struct_or_variant_container_builder(name, fields);
        self.output_custom_code();
        self.leave_class();
        assert(self.context().ns =~= ctx.ns);
        assert(self.context().reserved =~= ctx.reserved);
        self.out.write_line("}");
    }
}

/// The fields of a variant's class: none, `value`, `field0`, `field1`, ..., or its own.
pub open spec fn java_variant_fields(v: VariantFormatV) -> Seq<NamedV<FormatV>> {
    match v {
        VariantFormatV::Unit => Seq::empty(),
        VariantFormatV::NewType(f) => seq![NamedV { name: "value"@, doc: Seq::empty(), value: f }],
        VariantFormatV::Tuple(s) => sw_named(s, "field"@),
        VariantFormatV::Struct(fs) => fs,
    }
}

/// The nested classes of the variants, in index order.
pub open spec fn java_variants(
    w: WriterState,
    cfg: JavaConfig,
    ctx: JavaContext,
    base: Seq<char>,
    vs: Seq<(u32, NamedV<VariantFormatV>)>,
) -> WriterState
    decreases vs.len(),
{
    if vs.len() == 0 {
        w
    } else {
        let e = vs.last();
        java_struct(java_variants(w, cfg, ctx, base, vs.drop_last()), cfg, ctx, Some(base), Some(e.0), e.1.name, java_variant_fields(e.1.value))
    }
}

/// The `case` of the deserializing `switch` for a variant.
pub open spec fn java_variant_case(e: (u32, NamedV<VariantFormatV>)) -> Seq<char> {
    "case "@ + decimal(e.0 as nat) + ": return "@ + e.1.name + ".load(deserializer);"@
}

/// An abstract class for an enum, which reserves the names of its variants: under an
/// encoding, its serialization methods, which dispatch on the variant index; then a nested
/// class per variant.
pub open spec fn java_enum(
    w: WriterState,
    cfg: JavaConfig,
    ctx: JavaContext,
    name: Seq<char>,
    vs: Seq<(u32, NamedV<VariantFormatV>)>,
) -> WriterState {
    let c = entered(ctx, name, vs.map_values(|e: (u32, NamedV<VariantFormatV>)| e.1.name));
    let w = java_comment(put_newline(w), cfg, ctx, name);
    let w = indented(put_line(w, "public abstract class "@ + name + " {"@));
    let w = if cfg.encoding != Encoding::Plain {
        let w = put_line(
            w,
            "\nabstract public void serialize(com.novi.serde.Serializer serializer) throws com.novi.serde.SerializationError;"@,
        );
        let w = indented(put_str(
            w,
            "\npublic static "@ + name + " deserialize(com.novi.serde.Deserializer deserializer) throws com.novi.serde.DeserializationError {"@,
        ));
        let w = indented(put_line(w, "\nint index = deserializer.deserialize_variant_index();\nswitch (index) {"@));
        let w = put_lines(w, vs.map_values(|e: (u32, NamedV<VariantFormatV>)| java_variant_case(e)));
        let w = put_line(
            w,
            "default: throw new com.novi.serde.DeserializationError(\"Unknown variant index for "@ + name + ": \" + index);"@,
        );
        let w = put_line(unindented(put_line(unindented(w), "}"@)), "}"@);
        java_class_deserialize(java_class_serialize(w, cfg.encoding), cfg.encoding, name)
    } else {
        w
    };
    put_line(unindented(java_variants(w, cfg, c, name, vs)), "}\n"@)
}

/// The class of a type: a final class for every struct shape (a newtype holding its value
/// in `value`, a tuple struct in `field0`, `field1`, ...), an abstract class for an enum.
pub open spec fn java_container(w: WriterState, cfg: JavaConfig, ctx: JavaContext, name: Seq<char>, c: ContainerFormatV) -> WriterState {
    match c {
        ContainerFormatV::UnitStruct(_) => java_struct(w, cfg, ctx, None, None, name, Seq::empty()),
        ContainerFormatV::NewTypeStruct(f, _) => java_struct(
            w,
            cfg,
            ctx,
            None,
            None,
            name,
            seq![NamedV { name: "value"@, doc: Seq::empty(), value: f }],
        ),
        ContainerFormatV::TupleStruct(s, _) => java_struct(w, cfg, ctx, None, None, name, sw_named(s, "field"@)),
        ContainerFormatV::Struct(fs, _) => java_struct(w, cfg, ctx, None, None, name, fs),
        ContainerFormatV::Enum(vs, _) => java_enum(w, cfg, ctx, name, vs),
    }
}

impl<'a> JavaEmitter<'a> {
    fn output_variant(&mut self, base: &str, index: u32, name: &str, variant: &VariantFormat)
        requires
            old(self).generator.wf(),
        ensures
            final(self).out@ == java_struct(
                old(self).out@,
                old(self).cfg(),
                old(self).context(),
                Some(base@),
                Some(index),
                name@,
                java_variant_fields(variant@),
            ),
            final(self).generator == old(self).generator,
            final(self).context() == old(self).context(),
    {
        match variant {
            VariantFormat::Unit => {
                let fields: Vec<Named<Format>> = Vec::new();
                assert(seq_view(fields@) =~= Seq::<NamedV<FormatV>>::empty());
                self.output_struct_or_variant_container(Some(base), Some(index), name, &fields);
            },
            VariantFormat::NewType(f) => {
                let fields = vec![Named::new((**f).clone(), String::from_str("value"))];
                assert(seq_view(fields@) =~= seq![NamedV { name: "value"@, doc: Seq::<Seq<char>>::empty(), value: f@ }]);
                self.output_struct_or_variant_container(Some(base), Some(index), name, &fields);
            },
            VariantFormat::Tuple(fs) => {
                proof {
                    lemma_formats_view(fs@);
                }
                let fields = named(fs, "field");
                self.output_struct_or_variant_container(Some(base), Some(index), name, &fields);
            },
            VariantFormat::Struct(fields) => {
                self.output_struct_or_variant_container(Some(base), Some(index), name, fields);
            },
        }
    }

    fn output_variants(&mut self, base: &str, variants: &VariantMap)
        requires
            old(self).generator.wf(),
        ensures
            final(self).out@ == java_variants(old(self).out@, old(self).cfg(), old(self).context(), base@, variants@),
            final(self).generator == old(self).generator,
            final(self).context() == old(self).context(),
    {
        let ghost start = self.out@;
        let ghost vs = variants@;
        let mut i: usize = 0;
        assert(vs.take(0) =~= Seq::<(u32, NamedV<VariantFormatV>)>::empty());
        while i < variants.len()
            invariant
                i <= vs.len(),
                vs == variants@,
                self.generator == old(self).generator,
                self.generator.wf(),
                self.context() == old(self).context(),
                self.out@ == java_variants(start, self.cfg(), self.context(), base@, vs.take(i as int)),
            decreases vs.len() - i,
        {
            let (index, v) = variants.entry(i);
            self.output_variant(base, *index, v.name.as_str(), &v.value);
            assert(vs.take(i + 1).drop_last() =~= vs.take(i as int));
            i = i + 1;
        }
        assert(vs.take(vs.len() as int) =~= vs);
    }

    fn output_enum_container(&mut self, name: &str, variants: &VariantMap)
        requires
            old(self).generator.wf(),
        ensures
            final(self).out@ == java_enum(old(self).out@, old(self).cfg(), old(self).context(), name@, variants@),
            final(self).generator == old(self).generator,
            final(self).context() == old(self).context(),
    {
        let ghost ctx = self.context();
        let ghost vs = variants@;
        self.out.newline();
        self.output_comment(name);
        self.out.write_line(concat3("public abstract class ", name, " {").as_str());
        let mut reserved: Vec<String> = Vec::new();
        let mut i: usize = 0;
        while i < variants.len()
            invariant
                i <= vs.len(),
                vs == variants@,
                reserved@.len() == i,
                forall|j: int| 0 <= j < i ==> (#[trigger] reserved@[j])@ == vs[j].1.name,
            decreases vs.len() - i,
        {
            let (_index, v) = variants.entry(i);
            reserved.push(v.name.clone());
            i = i + 1;
        }
        assert(strings_view(reserved@) =~= vs.map_values(|e: (u32, NamedV<VariantFormatV>)| e.1.name));
        self.enter_class(name, reserved);
        if self.generator.config.has_encoding() {
            self.out.write_line(
                "\nabstract public void serialize(com.novi.serde.Serializer serializer) throws com.novi.serde.SerializationError;",
            );
            self.out.write_string(
                &concat3(
                    "\npublic static ",
                    name,
                    " deserialize(com.novi.serde.Deserializer deserializer) throws com.novi.serde.DeserializationError {",
                ),
            );
            self.out.indent();
            self.out.write_line("\nint index = deserializer.deserialize_variant_index();\nswitch (index) {");
            self.out.indent();
            let mut cases: Vec<String> = Vec::new();
            let mut i: usize = 0;
            while i < variants.len()
                invariant
                    i <= vs.len(),
                    vs == variants@,
                    cases@.len() == i,
                    forall|j: int| 0 <= j < i ==> (#[trigger] cases@[j])@ == java_variant_case(vs[j]),
                decreases vs.len() - i,
            {
                let (index, v) = variants.entry(i);
                let mut line = concat4("case ", usize_to_string(*index as usize).as_str(), ": return ", v.name.as_str());
                line.append(".load(deserializer);");
                cases.push(line);
                i = i + 1;
            }
            assert(strings_view(cases@) =~= vs.map_values(|e: (u32, NamedV<VariantFormatV>)| java_variant_case(e)));
            self.write_lines(&cases);
            let mut line = concat3("default: throw new com.novi.serde.DeserializationError(\"Unknown variant index for ", name, ": \" + index);");
            self.out.write_line(line.as_str());
            self.out.unindent();
            self.out.write_line("}");
            self.out.unindent();
            self.out.write_line("}");
            self.output_class_serialize_for_encoding();
            self.output_class_deserialize_for_encoding(name);
        }
        self.output_variants(name, variants);
        self.leave_class();
        assert(self.context().ns =~= ctx.ns);
        assert(self.context().reserved =~= ctx.reserved);
        self.out.write_line("}\n");
    }

    /// Writes the class of the type `name`.
    pub fn output_container(&mut self, name: &str, format: &ContainerFormat)
        requires
            old(self).generator.wf(),
        ensures
            final(self).out@ == java_container(old(self).out@, old(self).cfg(), old(self).context(), name@, format@),
            final(self).generator == old(self).generator,
            final(self).context() == old(self).context(),
    {
        match format {
            ContainerFormat::UnitStruct(_) => {
                let fields: Vec<Named<Format>> = Vec::new();
                assert(seq_view(fields@) =~= Seq::<NamedV<FormatV>>::empty());
                self.output_struct_or_variant_container(None, None, name, &fields);
            },
            ContainerFormat::NewTypeStruct(f, _) => {
                let fields = vec![Named::new((**f).clone(), String::from_str("value"))];
                assert(seq_view(fields@) =~= seq![NamedV { name: "value"@, doc: Seq::<Seq<char>>::empty(), value: f@ }]);
                self.output_struct_or_variant_container(None, None, name, &fields);
            },
            ContainerFormat::TupleStruct(fs, _) => {
                proof {
                    lemma_formats_view(fs@);
                }
                let fields = named(fs, "field");
                self.output_struct_or_variant_container(None, None, name, &fields);
            },
            ContainerFormat::Struct(fields, _) => self.output_struct_or_variant_container(None, None, name, fields),
            ContainerFormat::Enum(variants, _) => self.output_enum_container(name, variants),
        }
    }
}

/// Serializing the elements of a tuple, `value.field0`, `value.field1`, ..., one line each.
pub open spec fn java_tuple_serialize(cfg: JavaConfig, ctx: JavaContext, s: Seq<FormatV>) -> Seq<char>
    decreases s.len(),
{
    if s.len() == 0 {
        Seq::empty()
    } else {
        java_tuple_serialize(cfg, ctx, s.drop_last()) + java_serialize_value(
            cfg,
            ctx,
            "value.field"@ + decimal((s.len() - 1) as nat),
            s.last(),
        ) + "\n"@
    }
}

/// The body of the helper that serializes a composite format.
pub open spec fn java_serialize_body(cfg: JavaConfig, ctx: JavaContext, f: FormatV) -> Seq<char> {
    match f {
        FormatV::Option(g) => "\nif (value.isPresent()) {\n    serializer.serialize_option_tag(true);\n    "@
            + java_serialize_value(cfg, ctx, "value.get()"@, *g)
            + "\n} else {\n    serializer.serialize_option_tag(false);\n}\n"@,
        FormatV::Sequence(g) => "\nserializer.serialize_len(value.size());\nfor ("@ + java_type(cfg, ctx, *g) + " item : value) {\n    "@
            + java_serialize_value(cfg, ctx, "item"@, *g) + "\n}\n"@,
        FormatV::SetOf(g) => "\nserializer.serialize_len(value.size());\nfor ("@ + java_type(cfg, ctx, *g) + " item : value) {\n    "@
            + java_serialize_value(cfg, ctx, "item"@, *g) + "\n}\n"@,
        FormatV::MapOf { key, value } => "\nserializer.serialize_len(value.size());\nint[] offsets = new int[value.size()];\nint count = 0;\nfor (java.util.Map.Entry<"@
            + java_type(cfg, ctx, *key) + ", "@ + java_type(cfg, ctx, *value)
            + "> entry : value.entrySet()) {\n    offsets[count++] = serializer.get_buffer_offset();\n    "@
            + java_serialize_value(cfg, ctx, "entry.getKey()"@, *key) + "\n    "@
            + java_serialize_value(cfg, ctx, "entry.getValue()"@, *value)
            + "\n}\nserializer.sort_map_entries(offsets);\n"@,
        FormatV::Tuple(s) => "\n"@ + java_tuple_serialize(cfg, ctx, s),
        FormatV::TupleArray { content, size } => "\nif (value.size() != "@ + decimal(size as nat)
            + ") {\n    throw new java.lang.IllegalArgumentException(\"Invalid length for fixed-size array: \" + value.size() + \" instead of \"+ "@
            + decimal(size as nat) + ");\n}\nfor ("@ + java_type(cfg, ctx, *content) + " item : value) {\n    "@
            + java_serialize_value(cfg, ctx, "item"@, *content) + "\n}\n"@,
        _ => Seq::empty(),
    }
}

/// The deserialization of each element of a tuple, on a line of its own.
pub open spec fn java_tuple_items(cfg: JavaConfig, ctx: JavaContext, s: Seq<FormatV>) -> Seq<char> {
    joined(s.map_values(|g: FormatV| "\n    "@ + java_deserialize(cfg, ctx, g)), ","@)
}

/// The body of the helper that deserializes a composite format.
pub open spec fn java_deserialize_body(cfg: JavaConfig, ctx: JavaContext, f: FormatV) -> Seq<char> {
    match f {
        FormatV::Option(g) => "\nboolean tag = deserializer.deserialize_option_tag();\nif (!tag) {\n    return java.util.Optional.empty();\n} else {\n    return java.util.Optional.of("@
            + java_deserialize(cfg, ctx, *g) + ");\n}\n"@,
        FormatV::Sequence(g) => java_list_body(cfg, ctx, *g),
        FormatV::SetOf(g) => java_list_body(cfg, ctx, *g),
        FormatV::MapOf { key, value } => {
            let k = java_type(cfg, ctx, *key);
            let v = java_type(cfg, ctx, *value);
            "\nlong length = deserializer.deserialize_len();\njava.util.Map<"@ + k + ", "@ + v + "> obj = new java.util.HashMap<"@ + k
                + ", "@ + v
                + ">();\nint previous_key_start = 0;\nint previous_key_end = 0;\nfor (long i = 0; i < length; i++) {\n    int key_start = deserializer.get_buffer_offset();\n    "@
                + k + " key = "@ + java_deserialize(cfg, ctx, *key)
                + ";\n    int key_end = deserializer.get_buffer_offset();\n    if (i > 0) {\n        deserializer.check_that_key_slices_are_increasing(\n            new com.novi.serde.Slice(previous_key_start, previous_key_end),\n            new com.novi.serde.Slice(key_start, key_end));\n    }\n    previous_key_start = key_start;\n    previous_key_end = key_end;\n    "@
                + v + " value = "@ + java_deserialize(cfg, ctx, *value) + ";\n    obj.put(key, value);\n}\nreturn obj;\n"@
        },
        FormatV::Tuple(s) => "\nreturn new "@ + java_type(cfg, ctx, f) + "("@ + java_tuple_items(cfg, ctx, s) + "\n);\n"@,
        FormatV::TupleArray { content, size } => {
            let t = java_type(cfg, ctx, *content);
            "\njava.util.List<"@ + t + "> obj = new java.util.ArrayList<"@ + t + ">("@ + decimal(size as nat)
                + ");\nfor (long i = 0; i < "@ + decimal(size as nat) + "; i++) {\n    obj.add("@ + java_deserialize(cfg, ctx, *content)
                + ");\n}\nreturn obj;\n"@
        },
        _ => Seq::empty(),
    }
}

/// The body of the helper that deserializes a list of `g`.
pub open spec fn java_list_body(cfg: JavaConfig, ctx: JavaContext, g: FormatV) -> Seq<char> {
    let t = java_type(cfg, ctx, g);
    "\nlong length = deserializer.deserialize_len();\njava.util.List<"@ + t + "> obj = new java.util.ArrayList<"@ + t
        + ">((int) length);\nfor (long i = 0; i < length; i++) {\n    obj.add("@ + java_deserialize(cfg, ctx, g) + ");\n}\nreturn obj;\n"@
}

/// The static method that serializes values of the composite format `f`.
pub open spec fn java_serialization_helper(w: WriterState, cfg: JavaConfig, ctx: JavaContext, name: Seq<char>, f: FormatV) -> WriterState {
    let w = put_str(
        w,
        "static void serialize_"@ + name + "("@ + java_type(cfg, ctx, f)
            + " value, com.novi.serde.Serializer serializer) throws com.novi.serde.SerializationError {"@,
    );
    put_line(unindented(put_str(indented(w), java_serialize_body(cfg, ctx, f))), "}\n"@)
}

/// The static method that deserializes values of the composite format `f`.
pub open spec fn java_deserialization_helper(w: WriterState, cfg: JavaConfig, ctx: JavaContext, name: Seq<char>, f: FormatV) -> WriterState {
    let w = put_str(
        w,
        "static "@ + java_type(cfg, ctx, f) + " deserialize_"@ + name
            + "(com.novi.serde.Deserializer deserializer) throws com.novi.serde.DeserializationError {"@,
    );
    put_line(unindented(put_str(indented(w), java_deserialize_body(cfg, ctx, f))), "}\n"@)
}

/// The helper methods: for each helper, serialization then deserialization.
pub open spec fn java_helpers(w: WriterState, cfg: JavaConfig, ctx: JavaContext, d: Seq<(Seq<char>, FormatV)>) -> WriterState
    decreases d.len(),
{
    if d.len() == 0 {
        w
    } else {
        let (k, f) = d.last();
        java_deserialization_helper(java_serialization_helper(java_helpers(w, cfg, ctx, d.drop_last()), cfg, ctx, k, f), cfg, ctx, k, f)
    }
}

/// The `TraitHelpers` class: the serialization helpers of every composite format of the
/// registry, by mangled name.
pub open spec fn java_trait_helpers(
    w: WriterState,
    cfg: JavaConfig,
    ctx: JavaContext,
    registry: Seq<(QualifiedTypeNameV, ContainerFormatV)>,
) -> WriterState {
    let c = entered(ctx, "TraitHelpers"@, Seq::empty());
    let w = indented(put_line(w, "final class TraitHelpers {"@));
    put_line(unindented(java_helpers(w, cfg, c, helpers(entries_subformats(registry)))), "}\n"@)
}

impl<'a> JavaEmitter<'a> {
    fn tuple_serialize(&self, v: &Vec<Format>) -> (r: String)
        requires
            self.generator.wf(),
        ensures
            r@ == java_tuple_serialize(self.cfg(), self.context(), formats_view(v@)),
    {
        let ghost cfg = self.cfg();
        let ghost ctx = self.context();
        proof {
            lemma_formats_view(v@);
        }
        let mut out = String::new();
        let mut i: usize = 0;
        assert(formats_view(v@).take(0) =~= Seq::<FormatV>::empty());
        while i < v.len()
            invariant
                i <= v.len(),
                self.generator.wf(),
                cfg == self.cfg(),
                ctx == self.context(),
                formats_view(v@).len() == v.len(),
                forall|j: int| 0 <= j < v.len() ==> #[trigger] formats_view(v@)[j] == v@[j]@,
                out@ == java_tuple_serialize(cfg, ctx, formats_view(v@).take(i as int)),
            decreases v.len() - i,
        {
            let value = concat("value.field", usize_to_string(i).as_str());
            let line = self.quote_serialize_value(value.as_str(), &v[i]);
            let ghost before = out@;
            out.append(line.as_str());
            out.append("\n");
            proof {
                let t = formats_view(v@).take(i + 1);
                assert(t.drop_last() =~= formats_view(v@).take(i as int));
                assert(t.last() == v@[i as int]@);
                assert(out@ =~= before + line@ + "\n"@);
            }
            i = i + 1;
        }
        assert(formats_view(v@).take(v.len() as int) =~= formats_view(v@));
        out
    }

    fn tuple_items(&self, v: &Vec<Format>) -> (r: String)
        requires
            self.generator.wf(),
        ensures
            r@ == java_tuple_items(self.cfg(), self.context(), formats_view(v@)),
    {
        proof {
            lemma_formats_view(v@);
        }
        let mut items: Vec<String> = Vec::new();
        let mut i: usize = 0;
        while i < v.len()
            invariant
                i <= v.len(),
                self.generator.wf(),
                items@.len() == i,
                forall|j: int| 0 <= j < i ==> (#[trigger] items@[j])@ == "\n    "@ + java_deserialize(self.cfg(), self.context(), v@[j]@),
            decreases v.len() - i,
        {
            items.push(concat("\n    ", self.quote_deserialize(&v[i]).as_str()));
            i = i + 1;
        }
        assert(strings_view(items@) =~= formats_view(v@).map_values(
            |g: FormatV| "\n    "@ + java_deserialize(self.cfg(), self.context(), g),
        ));
        join_with(&items, ",")
    }

    fn serialize_body(&self, f: &Format) -> (r: String)
        requires
            self.generator.wf(),
        ensures
            r@ == java_serialize_body(self.cfg(), self.context(), f@),
    {
        match f {
            Format::Option(g) => {
                let mut r = concat3(
                    "\nif (value.isPresent()) {\n    serializer.serialize_option_tag(true);\n    ",
                    self.quote_serialize_value("value.get()", g).as_str(),
                    "\n} else {\n    serializer.serialize_option_tag(false);\n}\n",
                );
                r
            },
            Format::Sequence(g) | Format::SetOf(g) => {
                let mut r = concat3(
                    "\nserializer.serialize_len(value.size());\nfor (",
                    self.quote_type(g).as_str(),
                    " item : value) {\n    ",
                );
                r.append(self.quote_serialize_value("item", g).as_str());
                r.append("\n}\n");
                r
            },
            Format::MapOf { key, value } => {
                let mut r = concat4(
                    "\nserializer.serialize_len(value.size());\nint[] offsets = new int[value.size()];\nint count = 0;\nfor (java.util.Map.Entry<",
                    self.quote_type(key).as_str(),
                    ", ",
                    self.quote_type(value).as_str(),
                );
                r.append("> entry : value.entrySet()) {\n    offsets[count++] = serializer.get_buffer_offset();\n    ");
                r.append(self.quote_serialize_value("entry.getKey()", key).as_str());
                r.append("\n    ");
                r.append(self.quote_serialize_value("entry.getValue()", value).as_str());
                r.append("\n}\nserializer.sort_map_entries(offsets);\n");
                r
            },
            Format::Tuple(v) => concat("\n", self.tuple_serialize(v).as_str()),
            Format::TupleArray { content, size } => {
                let n = usize_to_string(*size);
                let mut r = concat3("\nif (value.size() != ", n.as_str(), ") {\n    throw new java.lang.IllegalArgumentException(\"Invalid length for fixed-size array: \" + value.size() + \" instead of \"+ ");
                r.append(n.as_str());
                r.append(");\n}\nfor (");
                r.append(self.quote_type(content).as_str());
                r.append(" item : value) {\n    ");
                r.append(self.quote_serialize_value("item", content).as_str());
                r.append("\n}\n");
                r
            },
            _ => String::new(),
        }
    }

    fn list_body(&self, g: &Format) -> (r: String)
        requires
            self.generator.wf(),
        ensures
            r@ == java_list_body(self.cfg(), self.context(), g@),
    {
        let t = self.quote_type(g);
        let mut r = concat4("\nlong length = deserializer.deserialize_len();\njava.util.List<", t.as_str(), "> obj = new java.util.ArrayList<", t.as_str());
        r.append(">((int) length);\nfor (long i = 0; i < length; i++) {\n    obj.add(");
        r.append(self.quote_deserialize(g).as_str());
        r.append(");\n}\nreturn obj;\n");
        r
    }

    fn deserialize_body(&self, f: &Format) -> (r: String)
        requires
            self.generator.wf(),
        ensures
            r@ == java_deserialize_body(self.cfg(), self.context(), f@),
    {
        match f {
            Format::Option(g) => concat3(
                "\nboolean tag = deserializer.deserialize_option_tag();\nif (!tag) {\n    return java.util.Optional.empty();\n} else {\n    return java.util.Optional.of(",
                self.quote_deserialize(g).as_str(),
                ");\n}\n",
            ),
            Format::Sequence(g) | Format::SetOf(g) => self.list_body(g),
            Format::MapOf { key, value } => {
                let k = self.quote_type(key);
                let v = self.quote_type(value);
                let mut r = concat4("\nlong length = deserializer.deserialize_len();\njava.util.Map<", k.as_str(), ", ", v.as_str());
                r.append("> obj = new java.util.HashMap<");
                r.append(k.as_str());
                r.append(", ");
                r.append(v.as_str());
                r.append(">();\nint previous_key_start = 0;\nint previous_key_end = 0;\nfor (long i = 0; i < length; i++) {\n    int key_start = deserializer.get_buffer_offset();\n    ");
                r.append(k.as_str());
                r.append(" key = ");
                r.append(self.quote_deserialize(key).as_str());
                r.append(
                    ";\n    int key_end = deserializer.get_buffer_offset();\n    if (i > 0) {\n        deserializer.check_that_key_slices_are_increasing(\n            new com.novi.serde.Slice(previous_key_start, previous_key_end),\n            new com.novi.serde.Slice(key_start, key_end));\n    }\n    previous_key_start = key_start;\n    previous_key_end = key_end;\n    ",
                );
                r.append(v.as_str());
                r.append(" value = ");
                r.append(self.quote_deserialize(value).as_str());
                r.append(";\n    obj.put(key, value);\n}\nreturn obj;\n");
                r
            },
            Format::Tuple(v) => {
                let mut r = concat4("\nreturn new ", self.quote_type(f).as_str(), "(", self.tuple_items(v).as_str());
                r.append("\n);\n");
                r
            },
            Format::TupleArray { content, size } => {
                let t = self.quote_type(content);
                let n = usize_to_string(*size);
                let mut r = concat4("\njava.util.List<", t.as_str(), "> obj = new java.util.ArrayList<", t.as_str());
                r.append(">(");
                r.append(n.as_str());
                r.append(");\nfor (long i = 0; i < ");
                r.append(n.as_str());
                r.append("; i++) {\n    obj.add(");
                r.append(self.quote_deserialize(content).as_str());
                r.append(");\n}\nreturn obj;\n");
                r
            },
            _ => String::new(),
        }
    }

    fn output_serialization_helper(&mut self, name: &str, f: &Format)
        requires
            old(self).generator.wf(),
        ensures
            final(self).out@ == java_serialization_helper(old(self).out@, old(self).cfg(), old(self).context(), name@, f@),
            final(self).generator == old(self).generator,
            final(self).context() == old(self).context(),
    {
        let mut head = concat4("static void serialize_", name, "(", self.quote_type(f).as_str());
        head.append(" value, com.novi.serde.Serializer serializer) throws com.novi.serde.SerializationError {");
        let body = self.serialize_body(f);
        self.out.write_string(&head);
        self.out.indent();
        self.out.write_string(&body);
        self.out.unindent();
        self.out.write_line("}\n");
    }

    fn output_deserialization_helper(&mut self, name: &str, f: &Format)
        requires
            old(self).generator.wf(),
        ensures
            final(self).out@ == java_deserialization_helper(old(self).out@, old(self).cfg(), old(self).context(), name@, f@),
            final(self).generator == old(self).generator,
            final(self).context() == old(self).context(),
    {
        let mut head = concat4("static ", self.quote_type(f).as_str(), " deserialize_", name);
        head.append("(com.novi.serde.Deserializer deserializer) throws com.novi.serde.DeserializationError {");
        let body = self.deserialize_body(f);
        self.out.write_string(&head);
        self.out.indent();
        self.out.write_string(&body);
        self.out.unindent();
        self.out.write_line("}\n");
    }

    /// Writes the `TraitHelpers` class for the composite formats of `registry`.
    pub fn output_trait_helpers(&mut self, registry: &Registry)
        requires
            old(self).generator.wf(),
        ensures
            final(self).out@ == java_trait_helpers(old(self).out@, old(self).cfg(), old(self).context(), registry@),
            strictly_sorted(entry_keys(helpers(entries_subformats(registry@)))),
            final(self).generator == old(self).generator,
            final(self).context() == old(self).context(),
    {
        let ghost ctx = self.context();
        let fs = registry_subformats(registry);
        let d = collect_helpers(&fs);
        let ghost h = helpers(entries_subformats(registry@));
        self.out.write_line("final class TraitHelpers {");
        let none: Vec<String> = Vec::new();
        assert(strings_view(none@) =~= Seq::<Seq<char>>::empty());
        proof {
            reveal_strlit("TraitHelpers");
        }
        self.enter_class("TraitHelpers", none);
        let ghost start = self.out@;
        let ghost c = self.context();
        let mut i: usize = 0;
        assert(h.take(0) =~= Seq::<(Seq<char>, FormatV)>::empty());
        while i < d.len()
            invariant
                i <= d@.len() == h.len(),
                d@ == h,
                self.generator == old(self).generator,
                self.generator.wf(),
                self.context() == c,
                self.out@ == java_helpers(start, self.cfg(), c, h.take(i as int)),
            decreases d@.len() - i,
        {
            let (name, f) = d.entry(i);
            self.output_serialization_helper(name.as_str(), f);
            self.output_deserialization_helper(name.as_str(), f);
            assert(h.take(i + 1).drop_last() =~= h.take(i as int));
            i = i + 1;
        }
        assert(h.take(d@.len() as int) =~= h);
        self.leave_class();
        assert(self.context().ns =~= ctx.ns);
        assert(self.context().reserved =~= ctx.reserved);
        self.out.write_line("}\n");
    }
}

} // verus!

verus! {

broadcast use {
    lemma_put_line_keeps_indentation,
    lemma_put_str_same_indentation,
    lemma_put_newline_keeps_indentation,
    lemma_indented_prefix,
};

/// Writing lines never changes the indentation.
pub broadcast proof fn lemma_put_lines_keeps_indentation(w: WriterState, ls: Seq<Seq<char>>)
    ensures
        same_indentation(w, #[trigger] put_lines(w, ls)),
    decreases ls.len(),
{
    if ls.len() > 0 {
        lemma_put_lines_keeps_indentation(w, ls.drop_last());
    }
}

pub broadcast proof fn lemma_java_comment_keeps_indentation(w: WriterState, cfg: JavaConfig, ctx: JavaContext, name: Seq<char>)
    ensures
        same_indentation(w, #[trigger] java_comment(w, cfg, ctx, name)),
{
}

pub broadcast proof fn lemma_java_custom_code_keeps_indentation(w: WriterState, cfg: JavaConfig, ctx: JavaContext)
    ensures
        same_indentation(w, #[trigger] java_custom_code(w, cfg, ctx)),
{
}

/// The nested builder class leaves the indentation as it found it.
pub proof fn lemma_java_builder_balanced(w: WriterState, cfg: JavaConfig, ctx: JavaContext, name: Seq<char>, fields: Seq<NamedV<FormatV>>)
    ensures
        same_indentation(w, java_builder(w, cfg, ctx, name, fields)),
{
    broadcast use {lemma_put_lines_keeps_indentation, lemma_java_custom_code_keeps_indentation};
}

pub broadcast proof fn lemma_java_builder_keeps_indentation(
    w: WriterState,
    cfg: JavaConfig,
    ctx: JavaContext,
    name: Seq<char>,
    fields: Seq<NamedV<FormatV>>,
)
    ensures
        same_indentation(w, #[trigger] java_builder(w, cfg, ctx, name, fields)),
{
    lemma_java_builder_balanced(w, cfg, ctx, name, fields);
}

pub broadcast proof fn lemma_java_serialization_keeps_indentation(
    w: WriterState,
    cfg: JavaConfig,
    ctx: JavaContext,
    index: Option<u32>,
    name: Seq<char>,
    fields: Seq<NamedV<FormatV>>,
)
    ensures
        same_indentation(w, #[trigger] java_serialization(w, cfg, ctx, index, name, fields)),
{
    broadcast use lemma_put_lines_keeps_indentation;
}

pub broadcast proof fn lemma_java_equality_keeps_indentation(
    w: WriterState,
    cfg: JavaConfig,
    ctx: JavaContext,
    name: Seq<char>,
    fields: Seq<NamedV<FormatV>>,
)
    ensures
        same_indentation(w, #[trigger] java_equality(w, cfg, ctx, name, fields)),
{
    broadcast use lemma_put_lines_keeps_indentation;
}

pub broadcast proof fn lemma_java_field_decls_keeps_indentation(
    w: WriterState,
    cfg: JavaConfig,
    ctx: JavaContext,
    fields: Seq<NamedV<FormatV>>,
)
    ensures
        same_indentation(w, #[trigger] java_field_decls(w, cfg, ctx, fields)),
    decreases fields.len(),
{
    broadcast use lemma_java_comment_keeps_indentation;
    if fields.len() > 0 {
        lemma_java_field_decls_keeps_indentation(w, cfg, ctx, fields.drop_last());
    }
}

/// The class of a type or variant leaves the indentation as it found it.
pub broadcast proof fn lemma_java_struct_keeps_indentation(
    w: WriterState,
    cfg: JavaConfig,
    ctx: JavaContext,
    base: Option<Seq<char>>,
    index: Option<u32>,
    name: Seq<char>,
    fields: Seq<NamedV<FormatV>>,
)
    ensures
        same_indentation(w, #[trigger] java_struct(w, cfg, ctx, base, index, name, fields)),
{
    broadcast use {
        lemma_put_lines_keeps_indentation,
        lemma_java_comment_keeps_indentation,
        lemma_java_custom_code_keeps_indentation,
        lemma_java_builder_keeps_indentation,
        lemma_java_serialization_keeps_indentation,
        lemma_java_equality_keeps_indentation,
        lemma_java_field_decls_keeps_indentation,
    };
}

pub broadcast proof fn lemma_java_variants_keeps_indentation(
    w: WriterState,
    cfg: JavaConfig,
    ctx: JavaContext,
    base: Seq<char>,
    vs: Seq<(u32, NamedV<VariantFormatV>)>,
)
    ensures
        same_indentation(w, #[trigger] java_variants(w, cfg, ctx, base, vs)),
    decreases vs.len(),
{
    broadcast use lemma_java_struct_keeps_indentation;
    if vs.len() > 0 {
        lemma_java_variants_keeps_indentation(w, cfg, ctx, base, vs.drop_last());
    }
}

/// The classes of an enum leave the indentation as they found it.
pub broadcast proof fn lemma_java_enum_keeps_indentation(
    w: WriterState,
    cfg: JavaConfig,
    ctx: JavaContext,
    name: Seq<char>,
    vs: Seq<(u32, NamedV<VariantFormatV>)>,
)
    ensures
        same_indentation(w, #[trigger] java_enum(w, cfg, ctx, name, vs)),
{
    broadcast use {lemma_put_lines_keeps_indentation, lemma_java_comment_keeps_indentation, lemma_java_variants_keeps_indentation};
}

/// Every block that the class of a type opens, it closes: writing it leaves the
/// indentation as it found it.
pub proof fn lemma_java_container_balanced(w: WriterState, cfg: JavaConfig, ctx: JavaContext, name: Seq<char>, c: ContainerFormatV)
    ensures
        same_indentation(w, java_container(w, cfg, ctx, name, c)),
{
    broadcast use {lemma_java_struct_keeps_indentation, lemma_java_enum_keeps_indentation};
}

pub broadcast proof fn lemma_java_helpers_keeps_indentation(w: WriterState, cfg: JavaConfig, ctx: JavaContext, d: Seq<(Seq<char>, FormatV)>)
    ensures
        same_indentation(w, #[trigger] java_helpers(w, cfg, ctx, d)),
    decreases d.len(),
{
    if d.len() > 0 {
        lemma_java_helpers_keeps_indentation(w, cfg, ctx, d.drop_last());
    }
}

/// Every block that the helper class opens, it closes.
pub proof fn lemma_java_trait_helpers_balanced(
    w: WriterState,
    cfg: JavaConfig,
    ctx: JavaContext,
    registry: Seq<(QualifiedTypeNameV, ContainerFormatV)>,
)
    ensures
        same_indentation(w, java_trait_helpers(w, cfg, ctx, registry)),
{
    broadcast use lemma_java_helpers_keeps_indentation;
}

/// The helpers of an optional value agree on its tag: serializing writes the option tag
/// `value.isPresent()` (`true` followed by the contained value when there is one, `false`
/// alone when there is none), and deserializing reads the tag and reads a contained value
/// exactly when the tag is `true`.
pub proof fn lemma_java_option_helpers(cfg: JavaConfig, ctx: JavaContext, g: FormatV)
    ensures
        ({
            let tag = |present: bool| "serializer.serialize_option_tag("@ + (if present { "true"@ } else { "false"@ }) + ");"@;
            let f = FormatV::Option(Box::new(g));
            &&& java_serialize_body(cfg, ctx, f) == "\nif (value.isPresent()) {\n    "@ + tag(true) + "\n    "@ + java_serialize_value(
                cfg,
                ctx,
                "value.get()"@,
                g,
            ) + "\n} else {\n    "@ + tag(false) + "\n}\n"@
            &&& java_deserialize_body(cfg, ctx, f) == "\nboolean tag = deserializer.deserialize_option_tag();\nif (!tag) {\n"@
                + "    return java.util.Optional.empty();\n} else {\n    return java.util.Optional.of("@ + java_deserialize(cfg, ctx, g)
                + ");\n}\n"@
        }),
{
    reveal_strlit("\nif (value.isPresent()) {\n    serializer.serialize_option_tag(true);\n    ");
    reveal_strlit("\n} else {\n    serializer.serialize_option_tag(false);\n}\n");
    reveal_strlit("\nif (value.isPresent()) {\n    ");
    reveal_strlit("serializer.serialize_option_tag(");
    reveal_strlit("true");
    reveal_strlit("false");
    reveal_strlit(");");
    reveal_strlit("\n    ");
    reveal_strlit("\n} else {\n    ");
    reveal_strlit("\n}\n");
    reveal_strlit("\nboolean tag = deserializer.deserialize_option_tag();\nif (!tag) {\n    return java.util.Optional.empty();\n} else {\n    return java.util.Optional.of(");
    reveal_strlit("\nboolean tag = deserializer.deserialize_option_tag();\nif (!tag) {\n");
    reveal_strlit("    return java.util.Optional.empty();\n} else {\n    return java.util.Optional.of(");
    let s = java_serialize_value(cfg, ctx, "value.get()"@, g);
    let tag = |present: bool| "serializer.serialize_option_tag("@ + (if present { "true"@ } else { "false"@ }) + ");"@;
    assert("\nif (value.isPresent()) {\n    serializer.serialize_option_tag(true);\n    "@ + s + "\n} else {\n    serializer.serialize_option_tag(false);\n}\n"@
        =~= "\nif (value.isPresent()) {\n    "@ + tag(true) + "\n    "@ + s + "\n} else {\n    "@ + tag(false) + "\n}\n"@);
    let d = java_deserialize(cfg, ctx, g);
    assert("\nboolean tag = deserializer.deserialize_option_tag();\nif (!tag) {\n    return java.util.Optional.empty();\n} else {\n    return java.util.Optional.of("@ + d + ");\n}\n"@
        =~= "\nboolean tag = deserializer.deserialize_option_tag();\nif (!tag) {\n"@ + "    return java.util.Optional.empty();\n} else {\n    return java.util.Optional.of("@ + d + ");\n}\n"@);
}

} // verus!
