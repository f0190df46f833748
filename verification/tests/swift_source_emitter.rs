use facet_generate::generation::indent::{IndentConfig, IndentedWriter};
use facet_generate::generation::swift::{CodeGenerator, SwiftEmitter};
use facet_generate::generation::{CodeGeneratorConfig, Encoding, ExternalPackage, PackageLocation};
use facet_generate::reflection::format::{ContainerFormat, Doc, Format, Named, QualifiedTypeName, VariantFormat};
use facet_generate::util::sorted_map::SortedMap;
use facet_generate::Registry;

fn field(name: &str, value: Format) -> Named<Format> {
    Named { name: name.to_string(), doc: Doc::new(), value }
}

fn variant(name: &str, value: VariantFormat) -> Named<VariantFormat> {
    Named { name: name.to_string(), doc: Doc::new(), value }
}

fn named_type(name: &str) -> Format {
    Format::TypeName(QualifiedTypeName::root(name.to_string()))
}

fn external_type(namespace: &str, name: &str) -> Format {
    Format::TypeName(QualifiedTypeName::namespaced(namespace.to_string(), name.to_string()))
}

fn path(segments: &[&str]) -> Vec<String> {
    segments.iter().map(|s| s.to_string()).collect()
}

/// Every container of `registry`, in order, emitted from outside any namespace.
fn emit_all(config: &CodeGeneratorConfig, registry: &Registry) -> String {
    let generator = CodeGenerator::new(config);
    let mut emitter = SwiftEmitter::new(IndentedWriter::new(IndentConfig::Space(4)), &generator, Vec::new());
    for (name, format) in registry.iter() {
        emitter.output_container(&name.name, format);
    }
    emitter.out.into_string()
}

fn definitions_of_other_pkg() -> SortedMap<String, Vec<String>> {
    let mut definitions = SortedMap::new();
    definitions.insert("other/pkg".to_string(), vec!["Ext".to_string()]);
    definitions
}

#[test]
fn swift_emitter_tests_unit_struct_1() {
    let mut registry = Registry::new();
    registry.insert(QualifiedTypeName::root("UnitStruct".to_string()), ContainerFormat::UnitStruct(Doc::new()));
    let config = CodeGeneratorConfig::new("Root".to_string());
    assert_eq!(
        emit_all(&config, &registry),
        "\npublic struct UnitStruct: Hashable {\n\n    public init() {\n    }\n}\n"
    );
}

#[test]
fn enum_with_tuple_variant() {
    let mut variants = SortedMap::new();
    variants.insert(0, variant("Variant1", VariantFormat::Tuple(vec![Format::Str, Format::I32])));
    variants.insert(1, variant("Variant2", VariantFormat::NewType(Box::new(Format::F64))));
    let mut registry = Registry::new();
    registry.insert(QualifiedTypeName::root("MyEnum".to_string()), ContainerFormat::Enum(variants, Doc::new()));
    let config = CodeGeneratorConfig::new("Root".to_string());
    assert_eq!(
        emit_all(&config, &registry),
        "\nindirect public enum MyEnum: Hashable {\n    case variant1(String, Int32)\n    case variant2(Double)\n}\n"
    );
}

#[test]
fn enum_with_tuple_variant_containing_vecs() {
    let mut variants = SortedMap::new();
    variants.insert(
        0,
        variant(
            "MyVariant",
            VariantFormat::Tuple(vec![
                Format::Sequence(Box::new(named_type("Test1"))),
                Format::Sequence(Box::new(named_type("Test2"))),
            ]),
        ),
    );
    let mut registry = Registry::new();
    registry.insert(QualifiedTypeName::root("MyEnum".to_string()), ContainerFormat::Enum(variants, Doc::new()));
    for name in ["Test1", "Test2"] {
        registry.insert(
            QualifiedTypeName::root(name.to_string()),
            ContainerFormat::Struct(vec![field("field1", Format::Str), field("field2", Format::I32)], Doc::new()),
        );
    }
    let names: Vec<String> = registry.iter().map(|(name, _)| name.name.clone()).collect();
    assert_eq!(names, vec!["MyEnum".to_string(), "Test1".to_string(), "Test2".to_string()]);

    let config = CodeGeneratorConfig::new("Root".to_string());
    let test_struct = |name: &str| {
        format!(
            "\npublic struct {name}: Hashable {{\n    @Indirect public var field1: String\n    @Indirect public var field2: Int32\n\n    public init(field1: String, field2: Int32) {{\n        self.field1 = field1\n        self.field2 = field2\n    }}\n}}\n"
        )
    };
    let expected = format!(
        "\nindirect public enum MyEnum: Hashable {{\n    case myVariant([Test1], [Test2])\n}}\n{}{}",
        test_struct("Test1"),
        test_struct("Test2")
    );
    assert_eq!(emit_all(&config, &registry), expected);
}

#[test]
fn swift_source_struct_with_json_serialization() {
    let mut registry = Registry::new();
    registry.insert(
        QualifiedTypeName::root("Person".to_string()),
        ContainerFormat::Struct(
            vec![field("full_name", Format::Str), field("ext", external_type("other/pkg", "Ext"))],
            Doc::new(),
        ),
    );
    let config = CodeGeneratorConfig::new("Root".to_string())
        .with_encoding(Encoding::Json)
        .with_external_definitions(definitions_of_other_pkg());
    let expected = "\npublic struct Person: Hashable {\n\
\x20   @Indirect public var fullName: String\n\
\x20   @Indirect public var ext: Pkg.Ext\n\
\n\
\x20   public init(fullName: String, ext: Pkg.Ext) {\n\
\x20       self.fullName = fullName\n\
\x20       self.ext = ext\n\
\x20   }\n\
\n\
\x20   public func serialize<S: Serializer>(serializer: S) throws {\n\
\x20       try serializer.increase_container_depth()\n\
\x20       try serializer.serialize_str(value: self.fullName)\n\
\x20       try self.ext.serialize(serializer: serializer)\n\
\x20       try serializer.decrease_container_depth()\n\
\x20   }\n\
\n\
\x20   public func jsonSerialize() throws -> [UInt8] {\n\
\x20       let serializer = JsonSerializer.init();\n\
\x20       try self.serialize(serializer: serializer)\n\
\x20       return serializer.get_bytes()\n\
\x20   }\n\
\n\
\x20   public static func deserialize<D: Deserializer>(deserializer: D) throws -> Person {\n\
\x20       try deserializer.increase_container_depth()\n\
\x20       let fullName = try deserializer.deserialize_str()\n\
\x20       let ext = try OtherPkg.Ext.deserialize(deserializer: deserializer)\n\
\x20       try deserializer.decrease_container_depth()\n\
\x20       return Person.init(fullName: fullName, ext: ext)\n\
\x20   }\n\
\n\
\x20   public static func jsonDeserialize(input: [UInt8]) throws -> Person {\n\
\x20       let deserializer = JsonDeserializer.init(input: input);\n\
\x20       let obj = try deserialize(deserializer: deserializer)\n\
\x20       if deserializer.get_buffer_offset() < input.count {\n\
\x20           throw DeserializationError.invalidInput(issue: \"Some input bytes were not read\")\n\
\x20       }\n\
\x20       return obj\n\
\x20   }\n\
}\n";
    assert_eq!(emit_all(&config, &registry), expected);
}

#[test]
fn swift_source_enum_with_bincode_serialization() {
    let mut variants = SortedMap::new();
    variants.insert(0, variant("Unit", VariantFormat::Unit));
    variants.insert(1, variant("NewOne", VariantFormat::NewType(Box::new(Format::U8))));
    variants.insert(2, variant("Pair", VariantFormat::Tuple(vec![Format::Str, Format::Bool])));
    variants.insert(3, variant("Rec", VariantFormat::Struct(vec![field("a", Format::I64)])));
    let mut registry = Registry::new();
    registry.insert(QualifiedTypeName::root("MyEnum".to_string()), ContainerFormat::Enum(variants, Doc::new()));
    let config = CodeGeneratorConfig::new("Root".to_string()).with_encoding(Encoding::Bincode);
    let expected = "\nindirect public enum MyEnum: Hashable {\n\
\x20   case unit\n\
\x20   case newOne(UInt8)\n\
\x20   case pair(String, Bool)\n\
\x20   case rec(a: Int64)\n\
\n\
\x20   public func serialize<S: Serializer>(serializer: S) throws {\n\
\x20       try serializer.increase_container_depth()\n\
\x20       switch self {\n\
\x20       case .unit:\n\
\x20           try serializer.serialize_variant_index(value: 0)\n\
\x20       case .newOne(let x):\n\
\x20           try serializer.serialize_variant_index(value: 1)\n\
\x20           try serializer.serialize_u8(value: x)\n\
\x20       case .pair(let x0, let x1):\n\
\x20           try serializer.serialize_variant_index(value: 2)\n\
\x20           try serializer.serialize_str(value: x0)\n\
\x20           try serializer.serialize_bool(value: x1)\n\
\x20       case .rec(let a):\n\
\x20           try serializer.serialize_variant_index(value: 3)\n\
\x20           try serializer.serialize_i64(value: a)\n\
\x20       }\n\
\x20       try serializer.decrease_container_depth()\n\
\x20   }\n\
\n\
\x20   public func bincodeSerialize() throws -> [UInt8] {\n\
\x20       let serializer = BincodeSerializer.init();\n\
\x20       try self.serialize(serializer: serializer)\n\
\x20       return serializer.get_bytes()\n\
\x20   }\n\
\n\
\x20   public static func deserialize<D: Deserializer>(deserializer: D) throws -> MyEnum {\n\
\x20       let index = try deserializer.deserialize_variant_index()\n\
\x20       try deserializer.increase_container_depth()\n\
\x20       switch index {\n\
\x20       case 0:\n\
\x20           try deserializer.decrease_container_depth()\n\
\x20           return .unit\n\
\x20       case 1:\n\
\x20           let x = try deserializer.deserialize_u8()\n\
\x20           try deserializer.decrease_container_depth()\n\
\x20           return .newOne(x)\n\
\x20       case 2:\n\
\x20           let x0 = try deserializer.deserialize_str()\n\
\x20           let x1 = try deserializer.deserialize_bool()\n\
\x20           try deserializer.decrease_container_depth()\n\
\x20           return .pair(x0, x1)\n\
\x20       case 3:\n\
\x20           let a = try deserializer.deserialize_i64()\n\
\x20           try deserializer.decrease_container_depth()\n\
\x20           return .rec(a: a)\n\
\x20       default: throw DeserializationError.invalidInput(issue: \"Unknown variant index for MyEnum: \\(index)\")\n\
\x20       }\n\
\x20   }\n\
\n\
\x20   public static func bincodeDeserialize(input: [UInt8]) throws -> MyEnum {\n\
\x20       let deserializer = BincodeDeserializer.init(input: input);\n\
\x20       let obj = try deserialize(deserializer: deserializer)\n\
\x20       if deserializer.get_buffer_offset() < input.count {\n\
\x20           throw DeserializationError.invalidInput(issue: \"Some input bytes were not read\")\n\
\x20       }\n\
\x20       return obj\n\
\x20   }\n\
}\n";
    assert_eq!(emit_all(&config, &registry), expected);
}

#[test]
fn swift_source_comments_and_custom_code() {
    let mut registry = Registry::new();
    registry.insert(
        QualifiedTypeName::root("Person".to_string()),
        ContainerFormat::Struct(vec![field("full_name", Format::Str)], Doc::new()),
    );
    let mut config = CodeGeneratorConfig::new("Root".to_string());
    config.comments.insert(path(&["Person"]), "A person.\n\nMore.\n".to_string());
    config.comments.insert(path(&["Person", "fullName"]), "The name.\n".to_string());
    config.custom_code.insert(path(&["Person", "Person"]), "func greet() {}".to_string());
    let expected = "\n// A person.\n//\n// More.\npublic struct Person: Hashable {\n\
\x20   // The name.\n\
\x20   @Indirect public var fullName: String\n\
\n\
\x20   public init(fullName: String) {\n\
\x20       self.fullName = fullName\n\
\x20   }\n\
\n\
\x20   func greet() {}\n\
}\n";
    assert_eq!(emit_all(&config, &registry), expected);
}

#[test]
fn swift_source_enum_custom_code_and_variant_comment() {
    let mut variants = SortedMap::new();
    variants.insert(0, variant("First", VariantFormat::Unit));
    let mut registry = Registry::new();
    registry.insert(QualifiedTypeName::root("Choice".to_string()), ContainerFormat::Enum(variants, Doc::new()));
    let mut config = CodeGeneratorConfig::new("Root".to_string());
    config.comments.insert(path(&["Choice", "First"]), "The first.\n".to_string());
    config.custom_code.insert(path(&["Choice"]), "var isFirst: Bool { true }".to_string());
    assert_eq!(
        emit_all(&config, &registry),
        "\nindirect public enum Choice: Hashable {\n    // The first.\n    case first\n\n    var isFirst: Bool { true }\n}\n"
    );
}

#[test]
fn swift_source_trait_helpers() {
    let mut registry = Registry::new();
    registry.insert(
        QualifiedTypeName::root("S".to_string()),
        ContainerFormat::Struct(
            vec![
                field("a", Format::Option(Box::new(Format::Str))),
                field("b", Format::Sequence(Box::new(external_type("other/pkg", "Ext")))),
            ],
            Doc::new(),
        ),
    );
    let config = CodeGeneratorConfig::new("Root".to_string())
        .with_encoding(Encoding::Bincode)
        .with_external_definitions(definitions_of_other_pkg());
    let generator = CodeGenerator::new(&config);
    let mut emitter = SwiftEmitter::new(IndentedWriter::new(IndentConfig::Space(4)), &generator, Vec::new());
    emitter.output_trait_helpers(&registry);
    let expected = "func serialize_option_str<S: Serializer>(value: String?, serializer: S) throws {\n\
\x20   if let value = value {\n\
\x20       try serializer.serialize_option_tag(value: true)\n\
\x20       try serializer.serialize_str(value: value)\n\
\x20   } else {\n\
\x20       try serializer.serialize_option_tag(value: false)\n\
\x20   }\n\
}\n\
\n\
func deserialize_option_str<D: Deserializer>(deserializer: D) throws -> String? {\n\
\x20   let tag = try deserializer.deserialize_option_tag()\n\
\x20   if tag {\n\
\x20       return try deserializer.deserialize_str()\n\
\x20   } else {\n\
\x20       return nil\n\
\x20   }\n\
}\n\
\n\
func serialize_vector_Ext<S: Serializer>(value: [Pkg.Ext], serializer: S) throws {\n\
\x20   try serializer.serialize_len(value: value.count)\n\
\x20   for item in value {\n\
\x20       try item.serialize(serializer: serializer)\n\
\x20   }\n\
}\n\
\n\
func deserialize_vector_Ext<D: Deserializer>(deserializer: D) throws -> [Pkg.Ext] {\n\
\x20   let length = try deserializer.deserialize_len()\n\
\x20   var obj : [Pkg.Ext] = []\n\
\x20   for _ in 0..<length {\n\
\x20       obj.append(try OtherPkg.Ext.deserialize(deserializer: deserializer))\n\
\x20   }\n\
\x20   return obj\n\
}\n\
\n";
    assert_eq!(emitter.out.into_string(), expected);
}

#[test]
fn swift_source_preamble_imports() {
    let mut definitions = definitions_of_other_pkg();
    definitions.insert("alpha".to_string(), vec!["A".to_string()]);
    let mut packages = SortedMap::new();
    packages.insert(
        "zeta_lib".to_string(),
        ExternalPackage {
            for_namespace: "zeta_lib".to_string(),
            location: PackageLocation::Path("path/to/zeta".to_string()),
            module_name: None,
            version: None,
        },
    );
    let config = CodeGeneratorConfig::new("Root".to_string())
        .with_external_definitions(definitions)
        .with_external_packages(packages);
    let generator = CodeGenerator::new(&config);
    let mut emitter = SwiftEmitter::new(IndentedWriter::new(IndentConfig::Space(4)), &generator, Vec::new());
    emitter.output_preamble();
    assert_eq!(emitter.out.into_string(), "import Alpha\nimport OtherPkg\nimport Serde\nimport ZetaLib\n");
}
