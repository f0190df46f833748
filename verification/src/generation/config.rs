//! Configuration of code generation: encodings, external packages and definitions.
use vstd::prelude::*;

use crate::reflection::format::{seq_view, ContainerFormat, Format, Registry};
use crate::util::path_map::PathMap;
use crate::util::sorted_map::{Duplicate, SortedMap};

verus! {

/// The serialization encoding that generated code supports, if any.
#[derive(Debug, PartialEq, Eq, Structural, Clone, Copy)]
pub enum Encoding {
    Plain,
    Json,
    Bincode,
    Bcs,
}

impl Encoding {
    pub fn default() -> (e: Encoding)
        ensures
            e == Encoding::Plain,
    {
        Encoding::Plain
    }

    pub fn is_json(&self) -> (b: bool)
        ensures
            b == (*self == Encoding::Json),
    {
        matches!(self, Encoding::Json)
    }

    pub fn is_bincode(&self) -> (b: bool)
        ensures
            b == (*self == Encoding::Bincode),
    {
        matches!(self, Encoding::Bincode)
    }

    pub fn is_none(&self) -> (b: bool)
        ensures
            b == (*self == Encoding::Plain),
    {
        matches!(self, Encoding::Plain)
    }

    /// The encoding's name, in lower case.
    pub fn name(&self) -> (s: &'static str)
        ensures
            s@ == encoding_name(*self),
    {
        proof {
            reveal_strlit("none");
            reveal_strlit("json");
            reveal_strlit("bincode");
            reveal_strlit("bcs");
        }
        match self {
            Encoding::Plain => "none",
            Encoding::Json => "json",
            Encoding::Bincode => "bincode",
            Encoding::Bcs => "bcs",
        }
    }
}

/// The name of an encoding, in lower case.
pub open spec fn encoding_name(e: Encoding) -> Seq<char> {
    match e {
        Encoding::Plain => "none"@,
        Encoding::Json => "json"@,
        Encoding::Bincode => "bincode"@,
        Encoding::Bcs => "bcs"@,
    }
}

/// Where an external package is found.
#[derive(Debug, PartialEq, Eq)]
pub enum PackageLocation {
    Path(String),
    Url(String),
}

/// Model of a [`PackageLocation`].
pub enum PackageLocationV {
    Path(Seq<char>),
    Url(Seq<char>),
}

impl View for PackageLocation {
    type V = PackageLocationV;

    open spec fn view(&self) -> PackageLocationV {
        match self {
            PackageLocation::Path(p) => PackageLocationV::Path(p@),
            PackageLocation::Url(u) => PackageLocationV::Url(u@),
        }
    }
}

impl Duplicate for PackageLocation {
    fn duplicate(&self) -> (r: PackageLocation) {
        match self {
            PackageLocation::Path(p) => PackageLocation::Path(p.clone()),
            PackageLocation::Url(u) => PackageLocation::Url(u.clone()),
        }
    }
}

/// A package that provides the types of one namespace.
#[derive(Debug, PartialEq, Eq)]
pub struct ExternalPackage {
    pub for_namespace: String,
    pub location: PackageLocation,
    pub module_name: Option<String>,
    pub version: Option<String>,
}

/// Model of an [`ExternalPackage`].
pub struct ExternalPackageV {
    pub for_namespace: Seq<char>,
    pub location: PackageLocationV,
    pub module_name: Option<Seq<char>>,
    pub version: Option<Seq<char>>,
}

pub open spec fn option_string_view(o: Option<String>) -> Option<Seq<char>> {
    match o {
        Some(s) => Some(s@),
        None => None,
    }
}

impl View for ExternalPackage {
    type V = ExternalPackageV;

    open spec fn view(&self) -> ExternalPackageV {
        ExternalPackageV {
            for_namespace: self.for_namespace@,
            location: self.location@,
            module_name: option_string_view(self.module_name),
            version: option_string_view(self.version),
        }
    }
}

pub fn duplicate_option_string(o: &Option<String>) -> (r: Option<String>)
    ensures
        option_string_view(r) == option_string_view(*o),
{
    match o {
        Some(s) => Some(s.clone()),
        None => None,
    }
}

impl Duplicate for ExternalPackage {
    fn duplicate(&self) -> (r: ExternalPackage) {
        ExternalPackage {
            for_namespace: self.for_namespace.clone(),
            location: self.location.duplicate(),
            module_name: duplicate_option_string(&self.module_name),
            version: duplicate_option_string(&self.version),
        }
    }
}

impl Clone for ExternalPackage {
    fn clone(&self) -> (r: Self)
        ensures
            r@ == self@,
    {
        self.duplicate()
    }
}

impl Duplicate for Vec<String> {
    fn duplicate(&self) -> (r: Vec<String>) {
        let mut out: Vec<String> = Vec::new();
        let mut i: usize = 0;
        while i < self.len()
            invariant
                i <= self.len(),
                out@ == self@.take(i as int),
            decreases self.len() - i,
        {
            out.push(self[i].clone());
            assert(self@.take(i + 1) =~= self@.take(i as int).push(self@[i as int]));
            i = i + 1;
        }
        assert(self@.take(self.len() as int) =~= self@);
        out
    }
}

/// External packages, keyed by the namespace they provide.
pub type ExternalPackages = SortedMap<String, ExternalPackage>;

/// External type definitions: the type names of each namespace that lives elsewhere.
pub type ExternalDefinitions = SortedMap<String, Vec<String>>;

/// Runtime support that generated code needs.
#[derive(Debug, PartialEq, Eq, Structural, Clone, Copy)]
pub enum Feature {
    BigInt,
    Bytes,
    ListOfT,
    MapOfT,
    OptionOfT,
    SetOfT,
    TupleArray,
}

/// Language-independent configuration of code generation.
#[derive(Debug)]
pub struct CodeGeneratorConfig {
    pub module_name: String,
    pub encoding: Encoding,
    pub external_definitions: ExternalDefinitions,
    pub external_packages: ExternalPackages,
    pub has_bigint: bool,
    pub features: Vec<Feature>,
    pub c_style_enums: bool,
    /// Documentation of generated items, by the path of the item: its namespace followed by
    /// its name.
    pub comments: PathMap<String>,
    /// Code added at the end of generated classes, by the path of the class.
    pub custom_code: PathMap<String>,
    /// Whether an installer writes a package manifest.
    pub package_manifest: bool,
}

impl CodeGeneratorConfig {
    /// A configuration for the module `module_name`, with no encoding, no external
    /// definitions or packages, and no features.
    pub fn new(module_name: String) -> (c: CodeGeneratorConfig)
        ensures
            c.module_name@ == module_name@,
            c.encoding == Encoding::Plain,
            c.external_definitions@.len() == 0,
            c.external_packages@.len() == 0,
            !c.has_bigint,
            c.features@.len() == 0,
            !c.c_style_enums,
            c.comments@.len() == 0,
            c.custom_code@.len() == 0,
            c.package_manifest,
    {
        CodeGeneratorConfig {
            module_name,
            encoding: Encoding::Plain,
            external_definitions: SortedMap::new(),
            external_packages: SortedMap::new(),
            has_bigint: false,
            features: Vec::new(),
            c_style_enums: false,
            comments: PathMap::new(),
            custom_code: PathMap::new(),
            package_manifest: true,
        }
    }

    pub fn module_name(&self) -> (s: &str)
        ensures
            s@ == self.module_name@,
    {
        self.module_name.as_str()
    }

    pub fn with_encoding(self, encoding: Encoding) -> (c: CodeGeneratorConfig)
        ensures
            c == (CodeGeneratorConfig { encoding, ..self }),
    {
        CodeGeneratorConfig { encoding, ..self }
    }

    pub fn with_external_definitions(self, external_definitions: ExternalDefinitions) -> (c: CodeGeneratorConfig)
        ensures
            c == (CodeGeneratorConfig { external_definitions, ..self }),
    {
        CodeGeneratorConfig { external_definitions, ..self }
    }

    pub fn with_external_packages(self, external_packages: ExternalPackages) -> (c: CodeGeneratorConfig)
        ensures
            c == (CodeGeneratorConfig { external_packages, ..self }),
    {
        CodeGeneratorConfig { external_packages, ..self }
    }

    pub fn has_encoding(&self) -> (b: bool)
        ensures
            b == (self.encoding != Encoding::Plain),
    {
        !self.encoding.is_none()
    }

    pub fn duplicate(&self) -> (c: CodeGeneratorConfig)
        ensures
            c.module_name@ == self.module_name@,
            c.encoding == self.encoding,
            c.external_definitions@ == self.external_definitions@,
            c.external_packages@ == self.external_packages@,
            c.has_bigint == self.has_bigint,
            c.features@ == self.features@,
            c.c_style_enums == self.c_style_enums,
            c.comments@ == self.comments@,
            c.custom_code@ == self.custom_code@,
            c.package_manifest == self.package_manifest,
    {
        let mut features: Vec<Feature> = Vec::new();
        let mut i: usize = 0;
        while i < self.features.len()
            invariant
                i <= self.features.len(),
                features@ == self.features@.take(i as int),
            decreases self.features.len() - i,
        {
            features.push(self.features[i]);
            assert(self.features@.take(i + 1) =~= self.features@.take(i as int).push(self.features@[i as int]));
            i = i + 1;
        }
        assert(self.features@.take(self.features.len() as int) =~= self.features@);
        CodeGeneratorConfig {
            module_name: self.module_name.clone(),
            encoding: self.encoding,
            external_definitions: self.external_definitions.duplicate(),
            external_packages: self.external_packages.duplicate(),
            has_bigint: self.has_bigint,
            features,
            c_style_enums: self.c_style_enums,
            comments: self.comments.duplicate(),
            custom_code: self.custom_code.duplicate(),
            package_manifest: self.package_manifest,
        }
    }
}

} // verus!

verus! {

use crate::reflection::format::{FormatV, ContainerFormatV, NamedV, VariantFormatV, formats_view, lemma_formats_view, VariantFormat, Named};

/// Whether the node `f` itself (not its children) needs `feature`.
pub open spec fn node_needs(f: FormatV, feature: Feature) -> bool {
    match feature {
        Feature::BigInt => f is I128 || f is U128,
        Feature::Bytes => f is Bytes,
        Feature::ListOfT => f is Sequence,
        Feature::MapOfT => f is MapOf,
        Feature::OptionOfT => f is Option,
        Feature::SetOfT => f is SetOf,
        Feature::TupleArray => f is TupleArray,
    }
}

/// Whether `f` or a format inside it needs `feature`.
pub open spec fn format_needs(f: FormatV, feature: Feature) -> bool
    decreases f,
{
    node_needs(f, feature) || match f {
        FormatV::Option(g) | FormatV::Sequence(g) | FormatV::SetOf(g) => format_needs(*g, feature),
        FormatV::MapOf { key, value } => format_needs(*key, feature) || format_needs(*value, feature),
        FormatV::Tuple(s) => formats_need(s, feature),
        FormatV::TupleArray { content, .. } => format_needs(*content, feature),
        _ => false,
    }
}

/// Whether some format of `s` needs `feature`.
pub open spec fn formats_need(s: Seq<FormatV>, feature: Feature) -> bool
    decreases s,
{
    if s.len() == 0 {
        false
    } else {
        formats_need(s.drop_last(), feature) || format_needs(s.last(), feature)
    }
}

pub open spec fn nameds_need(s: Seq<NamedV<FormatV>>, feature: Feature) -> bool {
    exists|i: int| 0 <= i < s.len() && format_needs(#[trigger] s[i].value, feature)
}

pub open spec fn variant_needs(v: VariantFormatV, feature: Feature) -> bool {
    match v {
        VariantFormatV::Unit => false,
        VariantFormatV::NewType(f) => format_needs(f, feature),
        VariantFormatV::Tuple(s) => formats_need(s, feature),
        VariantFormatV::Struct(fs) => nameds_need(fs, feature),
    }
}

/// Whether a format inside the container needs `feature`.
pub open spec fn container_needs(c: ContainerFormatV, feature: Feature) -> bool {
    match c {
        ContainerFormatV::UnitStruct(_) => false,
        ContainerFormatV::NewTypeStruct(f, _) => format_needs(f, feature),
        ContainerFormatV::TupleStruct(s, _) => formats_need(s, feature),
        ContainerFormatV::Struct(fs, _) => nameds_need(fs, feature),
        ContainerFormatV::Enum(vs, _) => variants_need(vs, feature),
    }
}

/// Whether a format inside some variant needs `feature`.
pub open spec fn variants_need(vs: Seq<(u32, NamedV<VariantFormatV>)>, feature: Feature) -> bool {
    exists|i: int| 0 <= i < vs.len() && variant_needs(#[trigger] vs[i].1.value, feature)
}

/// Whether a format of the registry needs `feature`.
pub open spec fn registry_needs(r: Seq<(crate::reflection::format::QualifiedTypeNameV, ContainerFormatV)>, feature: Feature) -> bool {
    exists|i: int| 0 <= i < r.len() && container_needs(#[trigger] r[i].1, feature)
}

/// All features, in order.
pub open spec fn all_features() -> Seq<Feature> {
    seq![Feature::BigInt, Feature::Bytes, Feature::ListOfT, Feature::MapOfT, Feature::OptionOfT, Feature::SetOfT, Feature::TupleArray]
}

/// The features that the registry needs, in order.
pub open spec fn registry_features(r: Seq<(crate::reflection::format::QualifiedTypeNameV, ContainerFormatV)>) -> Seq<Feature> {
    all_features().filter(|f: Feature| registry_needs(r, f))
}

/// Whether `f` or a format inside it needs `feature`.
pub fn format_needs_feature(f: &Format, feature: Feature) -> (b: bool)
    ensures
        b == format_needs(f@, feature),
    decreases f, 0nat,
{
    let here = match feature {
        Feature::BigInt => matches!(f, Format::I128 | Format::U128),
        Feature::Bytes => matches!(f, Format::Bytes),
        Feature::ListOfT => matches!(f, Format::Sequence(_)),
        Feature::MapOfT => matches!(f, Format::MapOf { .. }),
        Feature::OptionOfT => matches!(f, Format::Option(_)),
        Feature::SetOfT => matches!(f, Format::SetOf(_)),
        Feature::TupleArray => matches!(f, Format::TupleArray { .. }),
    };
    if here {
        return true;
    }
    match f {
        Format::Option(g) | Format::Sequence(g) | Format::SetOf(g) => format_needs_feature(g, feature),
        Format::MapOf { key, value } => format_needs_feature(key, feature) || format_needs_feature(value, feature),
        Format::Tuple(v) => formats_need_feature(v, feature),
        Format::TupleArray { content, .. } => format_needs_feature(content, feature),
        _ => false,
    }
}

/// Whether a format of `v` needs `feature`.
pub fn formats_need_feature(v: &Vec<Format>, feature: Feature) -> (b: bool)
    ensures
        b == formats_need(formats_view(v@), feature),
    decreases v@, 1nat,
{
    let mut i: usize = 0;
    while i < v.len()
        invariant
            i <= v.len(),
            !formats_need(formats_view(v@.take(i as int)), feature),
        decreases v.len() - i,
    {
        proof {
            assert(decreases_to!(v@ => v@[i as int]));
            lemma_formats_view(v@.take(i + 1));
            let x = formats_view(v@.take(i + 1));
            assert(v@.take(i + 1).drop_last() =~= v@.take(i as int));
            assert(x == formats_view(v@.take(i as int)).push(v@[i as int]@));
            assert(x.drop_last() =~= formats_view(v@.take(i as int)));
            assert(x.last() == v@[i as int]@);
        }
        if format_needs_feature(&v[i], feature) {
            proof {
                lemma_formats_need_prefix(v@, i as int + 1, feature);
            }
            return true;
        }
        i = i + 1;
    }
    assert(v@.take(v.len() as int) =~= v@);
    false
}

proof fn lemma_formats_need_prefix(v: Seq<Format>, n: int, feature: Feature)
    requires
        0 <= n <= v.len(),
        formats_need(formats_view(v.take(n)), feature),
    ensures
        formats_need(formats_view(v), feature),
    decreases v.len() - n,
{
    if n < v.len() {
        let x = formats_view(v.take(n + 1));
        assert(v.take(n + 1).drop_last() =~= v.take(n));
        assert(x == formats_view(v.take(n)).push(v.take(n + 1).last()@));
        assert(x.drop_last() =~= formats_view(v.take(n)));
        lemma_formats_need_prefix(v, n + 1, feature);
    } else {
        assert(v.take(n) =~= v);
    }
}

fn nameds_need_feature(v: &Vec<Named<Format>>, feature: Feature) -> (b: bool)
    ensures
        b == nameds_need(seq_view(v@), feature),
{
    let mut i: usize = 0;
    while i < v.len()
        invariant
            i <= v.len(),
            forall|j: int| 0 <= j < i ==> !format_needs(#[trigger] seq_view(v@)[j].value, feature),
        decreases v.len() - i,
    {
        if format_needs_feature(&v[i].value, feature) {
            assert(format_needs(seq_view(v@)[i as int].value, feature));
            return true;
        }
        i = i + 1;
    }
    false
}

fn variant_needs_feature(v: &VariantFormat, feature: Feature) -> (b: bool)
    ensures
        b == variant_needs(v@, feature),
{
    match v {
        VariantFormat::Unit => false,
        VariantFormat::NewType(f) => format_needs_feature(f, feature),
        VariantFormat::Tuple(fs) => {
            proof {
                lemma_formats_view(fs@);
            }
            formats_need_feature(fs, feature)
        },
        VariantFormat::Struct(ns) => nameds_need_feature(ns, feature),
    }
}

/// Whether a format inside the container needs `feature`.
pub fn container_needs_feature(c: &ContainerFormat, feature: Feature) -> (b: bool)
    ensures
        b == container_needs(c@, feature),
{
    match c {
        ContainerFormat::UnitStruct(_) => false,
        ContainerFormat::NewTypeStruct(f, _) => format_needs_feature(f, feature),
        ContainerFormat::TupleStruct(fs, _) => {
            proof {
                lemma_formats_view(fs@);
            }
            formats_need_feature(fs, feature)
        },
        ContainerFormat::Struct(ns, _) => nameds_need_feature(ns, feature),
        ContainerFormat::Enum(vs, _) => variants_need_feature(vs, feature),
    }
}

fn variants_need_feature(vs: &crate::reflection::format::VariantMap, feature: Feature) -> (b: bool)
    ensures
        b == variants_need(vs@, feature),
{
    let mut i: usize = 0;
    while i < vs.len()
        invariant
            i <= vs@.len(),
            forall|j: int| 0 <= j < i ==> !variant_needs(#[trigger] vs@[j].1.value, feature),
        decreases vs@.len() - i,
    {
        let (_k, v) = vs.entry(i);
        if variant_needs_feature(&v.value, feature) {
            assert(variant_needs(vs@[i as int].1.value, feature));
            return true;
        }
        i = i + 1;
    }
    false
}

/// Whether a format of the registry needs `feature`.
pub fn registry_needs_feature(registry: &Registry, feature: Feature) -> (b: bool)
    ensures
        b == registry_needs(registry@, feature),
{
    let mut i: usize = 0;
    while i < registry.len()
        invariant
            i <= registry@.len(),
            forall|j: int| 0 <= j < i ==> !container_needs(#[trigger] registry@[j].1, feature),
        decreases registry@.len() - i,
    {
        let (_k, c) = registry.entry(i);
        if container_needs_feature(c, feature) {
            assert(container_needs(registry@[i as int].1, feature));
            return true;
        }
        i = i + 1;
    }
    false
}

impl CodeGeneratorConfig {
    /// Records what the registry needs: whether it uses 128-bit integers, and the
    /// features of its formats, in order.
    pub fn update_from(&mut self, registry: &Registry)
        ensures
            final(self).module_name == old(self).module_name,
            final(self).encoding == old(self).encoding,
            final(self).external_definitions == old(self).external_definitions,
            final(self).external_packages == old(self).external_packages,
            final(self).c_style_enums == old(self).c_style_enums,
            final(self).has_bigint == registry_needs(registry@, Feature::BigInt),
            final(self).features@ == registry_features(registry@),
    {
        let all = [Feature::BigInt, Feature::Bytes, Feature::ListOfT, Feature::MapOfT, Feature::OptionOfT, Feature::SetOfT, Feature::TupleArray];
        let mut features: Vec<Feature> = Vec::new();
        let mut i: usize = 0;
        assert(all@ == all_features());
        while i < 7
            invariant
                i <= 7,
                all@ == all_features(),
                features@ == all_features().take(i as int).filter(|f: Feature| registry_needs(registry@, f)),
            decreases 7 - i,
        {
            let f = all[i];
            let ghost pred = |f: Feature| registry_needs(registry@, f);
            proof {
                assert(all_features().take(i + 1).drop_last() =~= all_features().take(i as int));
                reveal_with_fuel(Seq::filter, 1);
            }
            if registry_needs_feature(registry, f) {
                features.push(f);
            }
            i = i + 1;
        }
        assert(all_features().take(7) =~= all_features());
        self.has_bigint = registry_needs_feature(registry, Feature::BigInt);
        self.features = features;
    }
}

} // verus!
