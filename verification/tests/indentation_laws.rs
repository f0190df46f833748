use facet_generate::generation::indent::{IndentConfig, IndentedWriter};
use facet_generate::generation::java::emitter::JavaEmitter;
use facet_generate::generation::swift::emitter::Swift;
use facet_generate::generation::swift::SwiftEmitter;
use facet_generate::generation::{java, kotlin, swift, swift2};
use facet_generate::generation::{CodeGeneratorConfig, Encoding};
use facet_generate::reflection::format::{ContainerFormat, Doc, Format, Named, QualifiedTypeName, VariantFormat};
use facet_generate::util::path_map::PathMap;
use facet_generate::util::sorted_map::SortedMap;
use facet_generate::Registry;

const MARKER: &str = "marker";

fn field(name: &str, value: Format) -> Named<Format> {
    Named { name: name.to_string(), doc: Doc::new(), value }
}

fn variant(name: &str, value: VariantFormat) -> Named<VariantFormat> {
    Named { name: name.to_string(), doc: Doc::new(), value }
}

fn struct_format() -> ContainerFormat {
    ContainerFormat::Struct(
        vec![field("a", Format::I32), field("b", Format::Option(Box::new(Format::Str)))],
        Doc::new(),
    )
}

/// An enum with a unit variant and a newtype variant.
fn enum_format() -> ContainerFormat {
    let mut variants = SortedMap::new();
    variants.insert(0, variant("Empty", VariantFormat::Unit));
    variants.insert(1, variant("Text", VariantFormat::NewType(Box::new(Format::Str))));
    ContainerFormat::Enum(variants, Doc::new())
}

fn registry_of(name: &str, format: ContainerFormat) -> Registry {
    let mut registry = Registry::new();
    registry.insert(QualifiedTypeName::root(name.to_string()), format);
    registry
}

/// Whether the line written after a definition starts at the left margin.
fn marker_unindented(out: &str) -> bool {
    out.ends_with("\nmarker\n")
}

#[test]
fn kotlin_definitions_close_their_blocks() {
    let name = QualifiedTypeName::root("Thing".to_string());
    for encoding in [Encoding::Plain, Encoding::Json, Encoding::Bincode] {
        let mut w = IndentedWriter::new(IndentConfig::Space(4));
        kotlin::emitter::write_container(&mut w, encoding, &name, &struct_format());
        w.write_line(MARKER);
        assert!(marker_unindented(w.as_str()), "{}", w.as_str());
    }
    for encoding in [Encoding::Plain, Encoding::Json] {
        let mut w = IndentedWriter::new(IndentConfig::Space(4));
        kotlin::emitter::write_container(&mut w, encoding, &name, &enum_format());
        w.write_line(MARKER);
        assert!(marker_unindented(w.as_str()), "{}", w.as_str());
    }
}

#[test]
fn kotlin_bincode_sealed_interface_closes_its_blocks() {
    let name = QualifiedTypeName::root("Thing".to_string());
    let mut w = IndentedWriter::new(IndentConfig::Space(4));
    kotlin::emitter::write_container(&mut w, Encoding::Bincode, &name, &enum_format());
    w.write_line(MARKER);
    assert!(marker_unindented(w.as_str()), "{}", w.as_str());
}

#[test]
fn swift_definitions_close_their_blocks() {
    let name = QualifiedTypeName::root("Thing".to_string());
    for encoding in [Encoding::Plain, Encoding::Json, Encoding::Bincode] {
        for format in [struct_format(), enum_format()] {
            let mut w = IndentedWriter::new(IndentConfig::Space(4));
            swift::emitter::write_container(&mut w, Swift::new(encoding), &name, &format);
            w.write_line(MARKER);
            assert!(marker_unindented(w.as_str()), "{}", w.as_str());
        }
    }
}

#[test]
fn swift2_definitions_close_their_blocks() {
    let name = QualifiedTypeName::root("Thing".to_string());
    for encoding in [Encoding::Plain, Encoding::Json] {
        for format in [struct_format(), enum_format()] {
            let mut w = IndentedWriter::new(IndentConfig::Space(4));
            swift2::emitter::write_container(&mut w, encoding, &name, &format);
            w.write_line(MARKER);
            assert!(marker_unindented(w.as_str()), "{}", w.as_str());
        }
    }
}

#[test]
fn java_classes_and_helpers_close_their_blocks() {
    for encoding in [Encoding::Plain, Encoding::Bincode] {
        let config = CodeGeneratorConfig::new("com.example".to_string()).with_encoding(encoding);
        let generator = java::CodeGenerator::new(&config);
        for format in [struct_format(), enum_format()] {
            let mut emitter = JavaEmitter::new(IndentedWriter::new(IndentConfig::Space(4)), &generator, Vec::new());
            emitter.output_container("Thing", &format);
            emitter.out.write_line(MARKER);
            assert!(marker_unindented(emitter.out.as_str()), "{}", emitter.out.as_str());
        }
        let mut emitter = JavaEmitter::new(IndentedWriter::new(IndentConfig::Space(4)), &generator, Vec::new());
        emitter.output_trait_helpers(&registry_of("Thing", struct_format()));
        emitter.out.write_line(MARKER);
        assert!(marker_unindented(emitter.out.as_str()), "{}", emitter.out.as_str());
    }
}

#[test]
fn swift_source_definitions_and_helpers_close_their_blocks() {
    for encoding in [Encoding::Plain, Encoding::Bincode] {
        let config = CodeGeneratorConfig::new("Root".to_string()).with_encoding(encoding);
        let generator = swift::CodeGenerator::new(&config);
        for format in [struct_format(), enum_format()] {
            let mut emitter = SwiftEmitter::new(IndentedWriter::new(IndentConfig::Space(4)), &generator, Vec::new());
            emitter.output_container("Thing", &format);
            emitter.out.write_line(MARKER);
            assert!(marker_unindented(emitter.out.as_str()), "{}", emitter.out.as_str());
        }
        let mut emitter = SwiftEmitter::new(IndentedWriter::new(IndentConfig::Space(4)), &generator, Vec::new());
        emitter.output_trait_helpers(&registry_of("Thing", struct_format()));
        emitter.out.write_line(MARKER);
        assert!(marker_unindented(emitter.out.as_str()), "{}", emitter.out.as_str());
    }
}

#[test]
fn path_map_gives_back_what_was_stored() {
    let mut map: PathMap<String> = PathMap::new();
    let a = vec!["Root".to_string(), "Type".to_string()];
    let b = vec!["Root".to_string()];
    assert_eq!(map.insert(a.clone(), "first".to_string()), None);
    assert_eq!(map.insert(b.clone(), "other".to_string()), None);
    assert_eq!(map.insert(a.clone(), "second".to_string()), Some("first".to_string()));
    assert_eq!(map.get(&a), Some(&"second".to_string()));
    assert_eq!(map.get(&b), Some(&"other".to_string()));
    assert_eq!(map.get(&vec!["Type".to_string()]), None);
    assert_eq!(map.len(), 2);
}

#[test]
fn sorted_map_gives_back_what_was_stored() {
    let mut map: SortedMap<String, u32> = SortedMap::new();
    assert_eq!(map.insert("b".to_string(), 2), None);
    assert_eq!(map.insert("a".to_string(), 1), None);
    assert_eq!(map.insert("b".to_string(), 3), Some(2));
    assert_eq!(map.get(&"a".to_string()), Some(&1));
    assert_eq!(map.get(&"b".to_string()), Some(&3));
    assert_eq!(map.get(&"c".to_string()), None);
    let keys: Vec<String> = map.iter().map(|(k, _)| k.clone()).collect();
    assert_eq!(keys, vec!["a".to_string(), "b".to_string()]);
}
