//! Java code generation: the generator and the source files it produces.
use vstd::prelude::*;

use crate::generation::config::{CodeGeneratorConfig, Encoding};
use crate::generation::indent::{put_str, unit_of, IndentConfig, IndentedWriter, WriterState};
use crate::generation::java::emitter::{
    java_config, java_container, java_trait_helpers, JavaConfig, JavaContext, JavaEmitter,
};
use crate::reflection::format::{ContainerFormatV, QualifiedTypeNameV, Registry};
use crate::util::sorted_map::{lemma_insert_lookup, map_lookup, SortedMap};
use crate::util::text::{concat, split_on, split_text, strings_view};

verus! {

/// The fully qualified class name of `name` under the external definitions `defs`: the
/// last namespace (in order) that lists `name` gives `root.namespace.name`.
pub open spec fn qname_lookup(defs: Seq<(Seq<char>, Seq<String>)>, root: Seq<char>, name: Seq<char>) -> Option<Seq<char>>
    decreases defs.len(),
{
    if defs.len() == 0 {
        None
    } else if strings_view(defs.last().1).contains(name) {
        Some(root + "."@ + defs.last().0 + "."@ + name)
    } else {
        qname_lookup(defs.drop_last(), root, name)
    }
}

/// The names of `defs[..i]` and of the first `j` names of `defs[i]`.
pub open spec fn qname_lookup_upto(
    defs: Seq<(Seq<char>, Seq<String>)>,
    root: Seq<char>,
    name: Seq<char>,
    i: int,
    j: int,
) -> Option<Seq<char>> {
    if strings_view(defs[i].1).take(j).contains(name) {
        Some(root + "."@ + defs[i].0 + "."@ + name)
    } else {
        qname_lookup(defs.take(i), root, name)
    }
}

/// Main configuration object for code generation in Java.
pub struct CodeGenerator<'a> {
    /// Language-independent configuration.
    pub config: &'a CodeGeneratorConfig,
    /// The fully qualified class name of each externally defined type, by its name.
    pub external_qualified_names: SortedMap<String, String>,
}

impl<'a> CodeGenerator<'a> {
    /// Whether the qualified names are those that the external definitions give.
    pub open spec fn wf(&self) -> bool {
        forall|name: Seq<char>|
            #[trigger] map_lookup(self.external_qualified_names@, name) == qname_lookup(
                self.config.external_definitions@,
                self.config.module_name@,
                name,
            )
    }

    /// A Java code generator for `config`, which must not ask for C-style enums.
    pub fn new(config: &'a CodeGeneratorConfig) -> (g: CodeGenerator<'a>)
        requires
            !config.c_style_enums,
        ensures
            g.config == config,
            g.wf(),
    {
        let root = config.module_name();
        let defs = &config.external_definitions;
        let ghost d = defs@;
        let mut names: SortedMap<String, String> = SortedMap::new();
        let mut i: usize = 0;
        assert forall|name: Seq<char>| #[trigger] map_lookup(names@, name) == qname_lookup(d.take(0), root@, name) by {
            assert(d.take(0).len() == 0);
        }
        while i < defs.len()
            invariant
                i <= defs@.len(),
                d == defs@,
                root@ == config.module_name@,
                forall|name: Seq<char>| #[trigger] map_lookup(names@, name) == qname_lookup(d.take(i as int), root@, name),
            decreases defs@.len() - i,
        {
            let (namespace, list) = defs.entry(i);
            let mut prefix = concat(root, ".");
            prefix.append(namespace.as_str());
            prefix.append(".");
            let mut j: usize = 0;
            proof {
                assert(d.take(i + 1).drop_last() =~= d.take(i as int));
                assert forall|name: Seq<char>| #[trigger] map_lookup(names@, name) == qname_lookup_upto(d, root@, name, i as int, 0) by {
                    assert(!strings_view(d[i as int].1).take(0).contains(name));
                }
            }
            while j < list.len()
                invariant
                    i < defs@.len(),
                    d == defs@,
                    j <= list@.len(),
                    list@ == d[i as int].1,
                    namespace@ == d[i as int].0,
                    root@ == config.module_name@,
                    prefix@ == root@ + "."@ + namespace@ + "."@,
                    forall|name: Seq<char>| #[trigger] map_lookup(names@, name) == qname_lookup_upto(d, root@, name, i as int, j as int),
                decreases list@.len() - j,
            {
                let name = &list[j];
                let _ = names.len();
                let ghost before = names@;
                let mut q = prefix.clone();
                q.append(name.as_str());
                names.insert(name.clone(), q);
                proof {
                    let v = strings_view(d[i as int].1);
                    assert(v.take(j + 1) =~= v.take(j as int).push(name@));
                    assert forall|x: Seq<char>| #[trigger] map_lookup(names@, x) == qname_lookup_upto(d, root@, x, i as int, j + 1) by {
                        lemma_insert_lookup::<String, String>(before, name@, q@, x);
                        if x == name@ {
                            assert(v.take(j + 1)[j as int] == x);
                            assert(v.take(j + 1).contains(x));
                            assert(q@ =~= root@ + "."@ + namespace@ + "."@ + x);
                        } else {
                            assert(v.take(j + 1).contains(x) == v.take(j as int).contains(x));
                        }
                    }
                }
                j = j + 1;
            }
            proof {
                let v = strings_view(d[i as int].1);
                assert(v.take(list@.len() as int) =~= v);
                assert(d.take(i + 1).last() == d[i as int]);
                assert forall|name: Seq<char>| #[trigger] map_lookup(names@, name) == qname_lookup(d.take(i + 1), root@, name) by {
                    assert(qname_lookup_upto(d, root@, name, i as int, list@.len() as int) == qname_lookup(d.take(i + 1), root@, name));
                }
            }
            i = i + 1;
        }
        assert(d.take(defs@.len() as int) =~= d);
        CodeGenerator { config, external_qualified_names: names }
    }
}

/// A Java source file: its name and contents.
pub struct JavaSource {
    pub file: String,
    pub contents: String,
}

/// The writer state that a new source file starts from.
pub open spec fn java_start() -> WriterState {
    WriterState { text: Seq::empty(), indentation: Seq::empty(), unit: unit_of(IndentConfig::Space(4)), at_line_start: true }
}

/// The segments of the package of the generated classes.
pub open spec fn java_package(cfg: JavaConfig) -> Seq<Seq<char>> {
    split_on(cfg.module_name, '.')
}

/// The context of a top-level class.
pub open spec fn java_root_context(cfg: JavaConfig) -> JavaContext {
    JavaContext { ns: java_package(cfg), reserved: Seq::empty() }
}

/// The package declaration.
pub open spec fn java_preamble(w: WriterState, cfg: JavaConfig) -> WriterState {
    put_str(w, "package "@ + cfg.module_name + ";\n\n"@)
}

/// The source file of the class of type `name`.
pub open spec fn java_class_source(cfg: JavaConfig, name: Seq<char>, c: ContainerFormatV) -> Seq<char> {
    java_container(java_preamble(java_start(), cfg), cfg, java_root_context(cfg), name, c).text
}

/// The source file of the `TraitHelpers` class.
pub open spec fn java_helpers_source(cfg: JavaConfig, registry: Seq<(QualifiedTypeNameV, ContainerFormatV)>) -> Seq<char> {
    java_trait_helpers(java_preamble(java_start(), cfg), cfg, java_root_context(cfg), registry).text
}

/// The source files for a registry: one per type, named after it, then under an encoding
/// the helpers.
pub open spec fn java_files(cfg: JavaConfig, registry: Seq<(QualifiedTypeNameV, ContainerFormatV)>) -> Seq<(Seq<char>, Seq<char>)> {
    registry.map_values(
        |e: (QualifiedTypeNameV, ContainerFormatV)| (e.0.name + ".java"@, java_class_source(cfg, e.0.name, e.1)),
    ) + if cfg.encoding != Encoding::Plain {
        seq![("TraitHelpers.java"@, java_helpers_source(cfg, registry))]
    } else {
        Seq::empty()
    }
}

/// The names and contents of source files.
pub open spec fn sources_view(s: Seq<JavaSource>) -> Seq<(Seq<char>, Seq<char>)> {
    s.map_values(|f: JavaSource| (f.file@, f.contents@))
}

impl<'a> CodeGenerator<'a> {
    /// The segments of the package, which is also the directory of the source files.
    pub fn package(&self) -> (r: Vec<String>)
        ensures
            strings_view(r@) == java_package(java_config(*self.config)),
    {
        split_text(self.config.module_name(), '.')
    }

    fn emitter(&self) -> (e: JavaEmitter<'_>)
        requires
            self.wf(),
        ensures
            e.out@ == java_preamble(java_start(), java_config(*self.config)),
            e.generator == self,
            e.context() == java_root_context(java_config(*self.config)),
    {
        let mut e = JavaEmitter::new(IndentedWriter::new(IndentConfig::Space(4)), self, self.package());
        e.output_preamble();
        e
    }

    /// The source files for `registry`: a class per type and, under an encoding, the
    /// helpers.
    pub fn source_files(&self, registry: &Registry) -> (r: Vec<JavaSource>)
        requires
            self.wf(),
        ensures
            sources_view(r@) == java_files(java_config(*self.config), registry@),
    {
        let ghost cfg = java_config(*self.config);
        let mut files: Vec<JavaSource> = Vec::new();
        let mut i: usize = 0;
        while i < registry.len()
            invariant
                i <= registry@.len(),
                self.wf(),
                cfg == java_config(*self.config),
                files@.len() == i,
                forall|j: int| 0 <= j < i ==> (#[trigger] files@[j]).file@ == registry@[j].0.name + ".java"@
                    && files@[j].contents@ == java_class_source(cfg, registry@[j].0.name, registry@[j].1),
            decreases registry@.len() - i,
        {
            let (name, c) = registry.entry(i);
            let mut e = self.emitter();
            e.output_container(name.name.as_str(), c);
            files.push(JavaSource { file: concat(name.name.as_str(), ".java"), contents: e.out.into_string() });
            i = i + 1;
        }
        let ghost classes = sources_view(files@);
        assert(classes =~= registry@.map_values(
            |e: (QualifiedTypeNameV, ContainerFormatV)| (e.0.name + ".java"@, java_class_source(cfg, e.0.name, e.1)),
        ));
        if self.config.has_encoding() {
            let mut e = self.emitter();
            e.output_trait_helpers(registry);
            files.push(JavaSource { file: String::from_str("TraitHelpers.java"), contents: e.out.into_string() });
            proof {
                reveal_strlit("TraitHelpers.java");
                assert(sources_view(files@) =~= classes + seq![("TraitHelpers.java"@, java_helpers_source(cfg, registry@))]);
            }
        } else {
            assert(sources_view(files@) =~= classes + Seq::<(Seq<char>, Seq<char>)>::empty());
        }
        files
    }
}

} // verus!
