//! The reflected type model: formats of fields, variants and containers, and the registry
//! that maps each qualified type name to its container format.
use vstd::prelude::*;

use crate::util::sorted_map::{Duplicate, OrdKey, SortedMap};
use crate::util::text::{compare_str, lemma_lex_lt_irreflexive, lemma_lex_lt_total, lemma_lex_lt_transitive, lex_lt, KeyOrder};

verus! {

/// The models of the elements of a sequence.
pub open spec fn seq_view<T: View>(s: Seq<T>) -> Seq<T::V> {
    s.map_values(|x: T| x@)
}

/// Copies each element of a vector, keeping its model.
pub fn duplicate_vec<T: Duplicate>(v: &Vec<T>) -> (r: Vec<T>)
    ensures
        seq_view(r@) == seq_view(v@),
{
    let mut out: Vec<T> = Vec::new();
    let mut i: usize = 0;
    while i < v.len()
        invariant
            i <= v.len(),
            out.len() == i,
            forall|j: int| 0 <= j < i ==> out@[j]@ == v@[j]@,
        decreases v.len() - i,
    {
        out.push(v[i].duplicate());
        i = i + 1;
    }
    assert(seq_view(out@) =~= seq_view(v@));
    out
}

/// The namespace a type belongs to.
#[derive(Debug, PartialEq, Eq)]
pub enum Namespace {
    Root,
    Named(String),
}

/// Model of a [`Namespace`].
pub enum NamespaceV {
    Root,
    Named(Seq<char>),
}

impl View for Namespace {
    type V = NamespaceV;

    open spec fn view(&self) -> NamespaceV {
        match self {
            Namespace::Root => NamespaceV::Root,
            Namespace::Named(s) => NamespaceV::Named(s@),
        }
    }
}

impl Duplicate for Namespace {
    fn duplicate(&self) -> (r: Namespace) {
        match self {
            Namespace::Root => Namespace::Root,
            Namespace::Named(s) => Namespace::Named(s.clone()),
        }
    }
}

/// A type name together with the namespace it lives in.
#[derive(Debug, PartialEq, Eq)]
pub struct QualifiedTypeName {
    pub namespace: Namespace,
    pub name: String,
}

/// Model of a [`QualifiedTypeName`].
pub struct QualifiedTypeNameV {
    pub namespace: NamespaceV,
    pub name: Seq<char>,
}

impl View for QualifiedTypeName {
    type V = QualifiedTypeNameV;

    open spec fn view(&self) -> QualifiedTypeNameV {
        QualifiedTypeNameV { namespace: self.namespace@, name: self.name@ }
    }
}

impl Duplicate for QualifiedTypeName {
    fn duplicate(&self) -> (r: QualifiedTypeName) {
        QualifiedTypeName { namespace: self.namespace.duplicate(), name: self.name.clone() }
    }
}

/// The text of a qualified name: the namespace (mapped by `ns`) and the name, joined by
/// `separator`; a name in the root namespace stands alone.
pub open spec fn qualified_text(q: QualifiedTypeNameV, ns: Seq<char>, separator: Seq<char>) -> Seq<char> {
    match q.namespace {
        NamespaceV::Root => q.name,
        NamespaceV::Named(_) => ns + separator + q.name,
    }
}

impl QualifiedTypeName {
    pub fn root(name: String) -> (r: QualifiedTypeName)
        ensures
            r@ == (QualifiedTypeNameV { namespace: NamespaceV::Root, name: name@ }),
    {
        QualifiedTypeName { namespace: Namespace::Root, name }
    }

    pub fn namespaced(namespace: String, name: String) -> (r: QualifiedTypeName)
        ensures
            r@ == (QualifiedTypeNameV { namespace: NamespaceV::Named(namespace@), name: name@ }),
    {
        QualifiedTypeName { namespace: Namespace::Named(namespace), name }
    }

    /// Renders the name, mapping the namespace (if any) through `namespace_fn` and
    /// joining it to the name with `separator`.
    pub fn format<F: Fn(&String) -> String>(&self, namespace_fn: F, separator: &str) -> (r: String)
        requires
            forall|s: &String| namespace_fn.requires((s,)),
        ensures
            match self.namespace {
                Namespace::Root => r@ == self.name@,
                Namespace::Named(ns) => exists|m: String|
                    namespace_fn.ensures((&ns,), m) && r@ == qualified_text(self@, m@, separator@),
            },
    {
        match &self.namespace {
            Namespace::Root => self.name.clone(),
            Namespace::Named(ns) => {
                let m = namespace_fn(ns);
                let mut r = m.clone();
                r.append(separator);
                r.append(self.name.as_str());
                r
            },
        }
    }
}

/// The order of qualified names: by namespace (the root namespace first, then named
/// namespaces by name), then by name.
pub open spec fn qualified_lt(a: QualifiedTypeNameV, b: QualifiedTypeNameV) -> bool {
    match (a.namespace, b.namespace) {
        (NamespaceV::Root, NamespaceV::Named(_)) => true,
        (NamespaceV::Named(_), NamespaceV::Root) => false,
        (NamespaceV::Root, NamespaceV::Root) => lex_lt(a.name, b.name),
        (NamespaceV::Named(x), NamespaceV::Named(y)) => lex_lt(x, y) || (x == y && lex_lt(a.name, b.name)),
    }
}

impl OrdKey for QualifiedTypeName {
    open spec fn key_lt(a: QualifiedTypeNameV, b: QualifiedTypeNameV) -> bool {
        qualified_lt(a, b)
    }

    proof fn lemma_key_lt_irreflexive(a: QualifiedTypeNameV) {
        lemma_lex_lt_irreflexive(a.name);
        if let NamespaceV::Named(x) = a.namespace {
            lemma_lex_lt_irreflexive(x);
        }
    }

    proof fn lemma_key_lt_transitive(a: QualifiedTypeNameV, b: QualifiedTypeNameV, c: QualifiedTypeNameV) {
        match (a.namespace, b.namespace, c.namespace) {
            (NamespaceV::Named(x), NamespaceV::Named(y), NamespaceV::Named(z)) => {
                if lex_lt(x, y) && lex_lt(y, z) {
                    lemma_lex_lt_transitive(x, y, z);
                }
                if lex_lt(a.name, b.name) && lex_lt(b.name, c.name) {
                    lemma_lex_lt_transitive(a.name, b.name, c.name);
                }
            },
            _ => {
                if lex_lt(a.name, b.name) && lex_lt(b.name, c.name) {
                    lemma_lex_lt_transitive(a.name, b.name, c.name);
                }
            },
        }
    }

    proof fn lemma_key_lt_total(a: QualifiedTypeNameV, b: QualifiedTypeNameV) {
        lemma_lex_lt_total(a.name, b.name);
        if let (NamespaceV::Named(x), NamespaceV::Named(y)) = (a.namespace, b.namespace) {
            lemma_lex_lt_total(x, y);
        }
    }

    fn compare_keys(&self, other: &QualifiedTypeName) -> (r: KeyOrder) {
        proof {
            lemma_lex_lt_irreflexive(self.name@);
            lemma_lex_lt_total(self.name@, other.name@);
        }
        match (&self.namespace, &other.namespace) {
            (Namespace::Root, Namespace::Named(_)) => KeyOrder::Less,
            (Namespace::Named(_), Namespace::Root) => KeyOrder::Greater,
            (Namespace::Root, Namespace::Root) => compare_str(self.name.as_str(), other.name.as_str()),
            (Namespace::Named(x), Namespace::Named(y)) => {
                proof {
                    lemma_lex_lt_irreflexive(x@);
                    lemma_lex_lt_total(x@, y@);
                }
                match compare_str(x.as_str(), y.as_str()) {
                    KeyOrder::Equal => compare_str(self.name.as_str(), other.name.as_str()),
                    o => o,
                }
            },
        }
    }
}

/// Documentation comments, one entry per line.
#[derive(Debug, PartialEq, Eq)]
pub struct Doc {
    comments: Vec<String>,
}

impl View for Doc {
    type V = Seq<Seq<char>>;

    closed spec fn view(&self) -> Seq<Seq<char>> {
        seq_view(self.comments@)
    }
}

impl Duplicate for Doc {
    fn duplicate(&self) -> (r: Doc) {
        Doc { comments: duplicate_vec(&self.comments) }
    }
}

impl Doc {
    pub fn new() -> (d: Doc)
        ensures
            d@ == Seq::<Seq<char>>::empty(),
    {
        let d = Doc { comments: Vec::new() };
        assert(d@ =~= Seq::<Seq<char>>::empty());
        d
    }

    pub fn from_comments(comments: Vec<String>) -> (d: Doc)
        ensures
            d@ == seq_view(comments@),
    {
        Doc { comments }
    }

    pub fn comments(&self) -> (c: &Vec<String>)
        ensures
            seq_view(c@) == self@,
    {
        &self.comments
    }

    pub fn is_empty(&self) -> (b: bool)
        ensures
            b == (self@.len() == 0),
    {
        self.comments.len() == 0
    }
}

/// A value with a name and documentation: a field, or an enum variant.
#[derive(Debug, PartialEq, Eq)]
pub struct Named<T> {
    pub name: String,
    pub doc: Doc,
    pub value: T,
}

/// Model of a [`Named`] value.
pub struct NamedV<T> {
    pub name: Seq<char>,
    pub doc: Seq<Seq<char>>,
    pub value: T,
}

impl<T: View> View for Named<T> {
    type V = NamedV<T::V>;

    open spec fn view(&self) -> NamedV<T::V> {
        NamedV { name: self.name@, doc: self.doc@, value: self.value@ }
    }
}

impl<T: Duplicate> Duplicate for Named<T> {
    fn duplicate(&self) -> (r: Named<T>) {
        Named { name: self.name.clone(), doc: self.doc.duplicate(), value: self.value.duplicate() }
    }
}

impl<T: Duplicate> Named<T> {
    /// A named value without documentation.
    pub fn new(value: T, name: String) -> (r: Named<T>)
        ensures
            r@ == (NamedV { name: name@, doc: Seq::<Seq<char>>::empty(), value: value@ }),
    {
        Named { name, doc: Doc::new(), value }
    }

    /// A copy of this value with its documentation removed.
    pub fn without_docs(&self) -> (r: Named<T>)
        ensures
            r@ == (NamedV { name: self@.name, doc: Seq::<Seq<char>>::empty(), value: self@.value }),
    {
        Named { name: self.name.clone(), doc: Doc::new(), value: self.value.duplicate() }
    }
}

/// A type expression: a primitive, a reference to a named type, or a composite.
#[derive(Debug, PartialEq, Eq)]
pub enum Format {
    TypeName(QualifiedTypeName),
    Unit,
    Bool,
    I8,
    I16,
    I32,
    I64,
    I128,
    U8,
    U16,
    U32,
    U64,
    U128,
    F32,
    F64,
    Char,
    Str,
    Bytes,
    Option(Box<Format>),
    Sequence(Box<Format>),
    SetOf(Box<Format>),
    MapOf { key: Box<Format>, value: Box<Format> },
    Tuple(Vec<Format>),
    TupleArray { content: Box<Format>, size: usize },
}

/// Model of a [`Format`].
pub enum FormatV {
    TypeName(QualifiedTypeNameV),
    Unit,
    Bool,
    I8,
    I16,
    I32,
    I64,
    I128,
    U8,
    U16,
    U32,
    U64,
    U128,
    F32,
    F64,
    Char,
    Str,
    Bytes,
    Option(Box<FormatV>),
    Sequence(Box<FormatV>),
    SetOf(Box<FormatV>),
    MapOf { key: Box<FormatV>, value: Box<FormatV> },
    Tuple(Seq<FormatV>),
    TupleArray { content: Box<FormatV>, size: usize },
}

impl View for Format {
    type V = FormatV;

    open spec fn view(&self) -> FormatV
        decreases self,
    {
        match self {
            Format::TypeName(q) => FormatV::TypeName(q@),
            Format::Unit => FormatV::Unit,
            Format::Bool => FormatV::Bool,
            Format::I8 => FormatV::I8,
            Format::I16 => FormatV::I16,
            Format::I32 => FormatV::I32,
            Format::I64 => FormatV::I64,
            Format::I128 => FormatV::I128,
            Format::U8 => FormatV::U8,
            Format::U16 => FormatV::U16,
            Format::U32 => FormatV::U32,
            Format::U64 => FormatV::U64,
            Format::U128 => FormatV::U128,
            Format::F32 => FormatV::F32,
            Format::F64 => FormatV::F64,
            Format::Char => FormatV::Char,
            Format::Str => FormatV::Str,
            Format::Bytes => FormatV::Bytes,
            Format::Option(f) => FormatV::Option(Box::new((**f).view())),
            Format::Sequence(f) => FormatV::Sequence(Box::new((**f).view())),
            Format::SetOf(f) => FormatV::SetOf(Box::new((**f).view())),
            Format::MapOf { key, value } => FormatV::MapOf {
                key: Box::new((**key).view()),
                value: Box::new((**value).view()),
            },
            Format::Tuple(v) => FormatV::Tuple(formats_view(v@)),
            Format::TupleArray { content, size } => FormatV::TupleArray {
                content: Box::new((**content).view()),
                size: *size,
            },
        }
    }
}

/// The models of a sequence of formats.
pub open spec fn formats_view(s: Seq<Format>) -> Seq<FormatV>
    decreases s,
{
    if s.len() == 0 {
        Seq::empty()
    } else {
        formats_view(s.drop_last()).push(s.last().view())
    }
}

pub broadcast proof fn lemma_formats_view(s: Seq<Format>)
    ensures
        #[trigger] formats_view(s) == seq_view(s),
    decreases s.len(),
{
    if s.len() > 0 {
        lemma_formats_view(s.drop_last());
        assert(seq_view(s) =~= seq_view(s.drop_last()).push(s.last()@));
    } else {
        assert(seq_view(s) =~= Seq::<FormatV>::empty());
    }
}

impl Duplicate for Format {
    fn duplicate(&self) -> (r: Format)
        decreases self, 0nat,
    {
        match self {
            Format::TypeName(q) => Format::TypeName(q.duplicate()),
            Format::Unit => Format::Unit,
            Format::Bool => Format::Bool,
            Format::I8 => Format::I8,
            Format::I16 => Format::I16,
            Format::I32 => Format::I32,
            Format::I64 => Format::I64,
            Format::I128 => Format::I128,
            Format::U8 => Format::U8,
            Format::U16 => Format::U16,
            Format::U32 => Format::U32,
            Format::U64 => Format::U64,
            Format::U128 => Format::U128,
            Format::F32 => Format::F32,
            Format::F64 => Format::F64,
            Format::Char => Format::Char,
            Format::Str => Format::Str,
            Format::Bytes => Format::Bytes,
            Format::Option(f) => Format::Option(Box::new(f.duplicate())),
            Format::Sequence(f) => Format::Sequence(Box::new(f.duplicate())),
            Format::SetOf(f) => Format::SetOf(Box::new(f.duplicate())),
            Format::MapOf { key, value } => Format::MapOf {
                key: Box::new(key.duplicate()),
                value: Box::new(value.duplicate()),
            },
            Format::Tuple(v) => Format::Tuple(duplicate_formats(v)),
            Format::TupleArray { content, size } => Format::TupleArray {
                content: Box::new(content.duplicate()),
                size: *size,
            },
        }
    }
}

/// Copies a vector of formats, keeping their models.
pub fn duplicate_formats(v: &Vec<Format>) -> (r: Vec<Format>)
    ensures
        formats_view(r@) == formats_view(v@),
    decreases v@, 1nat,
{
    let mut out: Vec<Format> = Vec::new();
    let mut i: usize = 0;
    while i < v.len()
        invariant
            i <= v.len(),
            out.len() == i,
            forall|j: int| 0 <= j < i ==> out@[j]@ == v@[j]@,
        decreases v.len() - i,
    {
        proof {
            assert(decreases_to!(v@ => v@[i as int]));
        }
        out.push(v[i].duplicate());
        i = i + 1;
    }
    proof {
        lemma_formats_view(out@);
        lemma_formats_view(v@);
        assert(seq_view(out@) =~= seq_view(v@));
    }
    out
}

/// The shape of an enum variant.
#[derive(Debug, PartialEq, Eq)]
pub enum VariantFormat {
    Unit,
    NewType(Box<Format>),
    Tuple(Vec<Format>),
    Struct(Vec<Named<Format>>),
}

/// Model of a [`VariantFormat`].
pub enum VariantFormatV {
    Unit,
    NewType(FormatV),
    Tuple(Seq<FormatV>),
    Struct(Seq<NamedV<FormatV>>),
}

impl View for VariantFormat {
    type V = VariantFormatV;

    open spec fn view(&self) -> VariantFormatV {
        match self {
            VariantFormat::Unit => VariantFormatV::Unit,
            VariantFormat::NewType(f) => VariantFormatV::NewType((**f)@),
            VariantFormat::Tuple(v) => VariantFormatV::Tuple(seq_view(v@)),
            VariantFormat::Struct(v) => VariantFormatV::Struct(seq_view(v@)),
        }
    }
}

impl Duplicate for VariantFormat {
    fn duplicate(&self) -> (r: VariantFormat) {
        match self {
            VariantFormat::Unit => VariantFormat::Unit,
            VariantFormat::NewType(f) => VariantFormat::NewType(Box::new(f.duplicate())),
            VariantFormat::Tuple(v) => VariantFormat::Tuple(duplicate_vec(v)),
            VariantFormat::Struct(v) => VariantFormat::Struct(duplicate_vec(v)),
        }
    }
}

/// The variants of an enum, keyed by variant index.
pub type VariantMap = SortedMap<u32, Named<VariantFormat>>;

/// The format of a named type definition.
#[derive(Debug, PartialEq, Eq)]
pub enum ContainerFormat {
    UnitStruct(Doc),
    NewTypeStruct(Box<Format>, Doc),
    TupleStruct(Vec<Format>, Doc),
    Struct(Vec<Named<Format>>, Doc),
    Enum(VariantMap, Doc),
}

/// Model of a [`ContainerFormat`].
pub enum ContainerFormatV {
    UnitStruct(Seq<Seq<char>>),
    NewTypeStruct(FormatV, Seq<Seq<char>>),
    TupleStruct(Seq<FormatV>, Seq<Seq<char>>),
    Struct(Seq<NamedV<FormatV>>, Seq<Seq<char>>),
    Enum(Seq<(u32, NamedV<VariantFormatV>)>, Seq<Seq<char>>),
}

impl View for ContainerFormat {
    type V = ContainerFormatV;

    open spec fn view(&self) -> ContainerFormatV {
        match self {
            ContainerFormat::UnitStruct(d) => ContainerFormatV::UnitStruct(d@),
            ContainerFormat::NewTypeStruct(f, d) => ContainerFormatV::NewTypeStruct((**f)@, d@),
            ContainerFormat::TupleStruct(v, d) => ContainerFormatV::TupleStruct(seq_view(v@), d@),
            ContainerFormat::Struct(v, d) => ContainerFormatV::Struct(seq_view(v@), d@),
            ContainerFormat::Enum(m, d) => ContainerFormatV::Enum(m@, d@),
        }
    }
}

impl Duplicate for ContainerFormat {
    fn duplicate(&self) -> (r: ContainerFormat) {
        match self {
            ContainerFormat::UnitStruct(d) => ContainerFormat::UnitStruct(d.duplicate()),
            ContainerFormat::NewTypeStruct(f, d) => ContainerFormat::NewTypeStruct(Box::new(f.duplicate()), d.duplicate()),
            ContainerFormat::TupleStruct(v, d) => ContainerFormat::TupleStruct(duplicate_vec(v), d.duplicate()),
            ContainerFormat::Struct(v, d) => ContainerFormat::Struct(duplicate_vec(v), d.duplicate()),
            ContainerFormat::Enum(m, d) => ContainerFormat::Enum(m.duplicate(), d.duplicate()),
        }
    }
}

/// All type definitions, keyed by qualified name, in name order.
pub type Registry = SortedMap<QualifiedTypeName, ContainerFormat>;


impl Clone for Namespace {
    fn clone(&self) -> (r: Self)
        ensures
            r@ == self@,
    {
        self.duplicate()
    }
}

impl Clone for QualifiedTypeName {
    fn clone(&self) -> (r: Self)
        ensures
            r@ == self@,
    {
        self.duplicate()
    }
}

impl Clone for Doc {
    fn clone(&self) -> (r: Self)
        ensures
            r@ == self@,
    {
        self.duplicate()
    }
}

impl Clone for Format {
    fn clone(&self) -> (r: Self)
        ensures
            r@ == self@,
    {
        self.duplicate()
    }
}

impl Clone for VariantFormat {
    fn clone(&self) -> (r: Self)
        ensures
            r@ == self@,
    {
        self.duplicate()
    }
}

impl Clone for ContainerFormat {
    fn clone(&self) -> (r: Self)
        ensures
            r@ == self@,
    {
        self.duplicate()
    }
}

impl<T: Duplicate> Clone for Named<T> {
    fn clone(&self) -> (r: Self)
        ensures
            r@ == self@,
    {
        self.duplicate()
    }
}

} // verus!
