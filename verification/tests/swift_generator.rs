use facet_generate::generation::module::split;
use facet_generate::generation::swift::{normalize_path, CodeGenerator, Installer};
use facet_generate::generation::{CodeGeneratorConfig, Encoding, ExternalPackage, PackageLocation};
use facet_generate::reflection::format::{ContainerFormat, Doc, Format, Named, QualifiedTypeName, VariantFormat};
use facet_generate::util::sorted_map::SortedMap;
use facet_generate::Registry;

fn field(name: &str, value: Format) -> Named<Format> {
    Named { name: name.to_string(), doc: Doc::new(), value }
}

fn variant(name: &str, value: VariantFormat) -> Named<VariantFormat> {
    Named { name: name.to_string(), doc: Doc::new(), value }
}

fn one_struct(name: &str, fields: Vec<Named<Format>>, doc: Doc) -> Registry {
    let mut registry = Registry::new();
    registry.insert(QualifiedTypeName::root(name.to_string()), ContainerFormat::Struct(fields, doc));
    registry
}

fn swift_output(config: &CodeGeneratorConfig, registry: &Registry) -> String {
    CodeGenerator::new(config).output(registry)
}

#[test]
fn swift_plain_struct() {
    let registry = one_struct(
        "Point",
        vec![field("x", Format::I32), field("y", Format::Option(Box::new(Format::Str)))],
        Doc::from_comments(vec!["A point".to_string()]),
    );
    let config = CodeGeneratorConfig::new("Shapes".to_string());
    let expected = "/// A point\n\
public struct Point {\n\
\x20   public var x: Int32\n\
\x20   public var y: String?\n\
\n\
\x20   public init(x: Int32, y: String?) {\n\
\x20       self.x = x\n\
\x20       self.y = y\n\
\x20   }\n\
}\n";
    assert_eq!(swift_output(&config, &registry), expected);
}

#[test]
fn swift_unit_struct_has_empty_initializer() {
    let mut registry = Registry::new();
    registry.insert(QualifiedTypeName::root("Unit".to_string()), ContainerFormat::UnitStruct(Doc::new()));
    let config = CodeGeneratorConfig::new("M".to_string());
    assert_eq!(
        swift_output(&config, &registry),
        "public struct Unit {\n    public init() {\n    }\n}\n"
    );
}

#[test]
fn swift_json_struct() {
    let registry = one_struct("Person", vec![field("name", Format::Str)], Doc::new());
    let config = CodeGeneratorConfig::new("People".to_string()).with_encoding(Encoding::Json);
    let expected = "import Serde\n\
public struct Person: Hashable, Equatable {\n\
\x20   public var name: String\n\
\n\
\x20   public init(name: String) {\n\
\x20       self.name = name\n\
\x20   }\n\
\n\
\x20   public func serialize<S: Serializer>(serializer: S) throws {\n\
\x20       try serializer.increase_container_depth()\n\
\x20       try serializer.serialize_str(value: self.name)\n\
\x20       try serializer.decrease_container_depth()\n\
\x20   }\n\
\n\
\x20   public func jsonSerialize() throws -> [UInt8] {\n\
\x20       let serializer = JsonSerializer.init();\n\
\x20       try self.serialize(serializer: serializer)\n\
\x20       return serializer.get_bytes()\n\
\x20   }\n\
\n\
\x20   public static func deserialize<D: Deserializer>(deserializer: D) throws -> Person {\n\
\x20       try deserializer.increase_container_depth()\n\
\x20       let name = try deserializer.deserialize_str()\n\
\x20       try deserializer.decrease_container_depth()\n\
\x20       return Person(name: name)\n\
\x20   }\n\
\n\
\x20   public static func jsonDeserialize(input: [UInt8]) throws -> Person {\n\
\x20       let deserializer = JsonDeserializer.init(input: input);\n\
\x20       let obj = try deserialize(deserializer: deserializer)\n\
\x20       if deserializer.get_buffer_offset() < input.count {\n\
\x20           throw DeserializationError.invalidInput(issue: \"Some input bytes were not read\")\n\
\x20       }\n\
\x20       return obj\n\
\x20   }\n\
}\n\
\n";
    assert_eq!(swift_output(&config, &registry), expected);
}

#[test]
fn swift_bincode_enum_switches_on_variant_position() {
    let mut variants = SortedMap::new();
    variants.insert(0u32, variant("Circle", VariantFormat::NewType(Box::new(Format::F64))));
    variants.insert(1u32, variant("Empty", VariantFormat::Unit));
    let mut registry = Registry::new();
    registry.insert(QualifiedTypeName::root("Shape".to_string()), ContainerFormat::Enum(variants, Doc::new()));
    let config = CodeGeneratorConfig::new("Shapes".to_string()).with_encoding(Encoding::Bincode);
    let out = swift_output(&config, &registry);
    assert!(out.starts_with("import Serde\nindirect public enum Shape: Hashable, Equatable {\n    case circle(Double)\n    case empty\n\n"));
    assert!(out.contains(
        "        switch self {\n\
\x20       case .circle(let x):\n\
\x20           try serializer.serialize_variant_index(value: 0)\n\
\x20           try serializer.serialize_f64(value: x)\n\
\x20       case .empty:\n\
\x20           try serializer.serialize_variant_index(value: 1)\n\
\x20       }\n"
    ));
    assert!(out.contains(
        "        switch index {\n\
\x20       case 0:\n\
\x20           let x = try deserializer.deserialize_f64()\n\
\x20           try deserializer.decrease_container_depth()\n\
\x20           return .circle(x)\n\
\x20       case 1:\n\
\x20           try deserializer.decrease_container_depth()\n\
\x20           return .empty\n\
\x20       default: throw DeserializationError.invalidInput(issue: \"Unknown variant index for Shape: \\(index)\")\n\
\x20       }\n"
    ));
    assert!(out.contains("public func bincodeSerialize() throws -> [UInt8] {"));
    assert!(out.contains("public static func bincodeDeserialize(input: [UInt8]) throws -> Shape {"));
}

#[test]
fn swift_helpers_for_composite_formats() {
    let registry = one_struct("Holder", vec![field("value", Format::Option(Box::new(Format::I32)))], Doc::new());
    let config = CodeGeneratorConfig::new("M".to_string()).with_encoding(Encoding::Bincode);
    let out = swift_output(&config, &registry);
    assert!(out.contains(
        "        try serializeOption(value: self.value, serializer: serializer) { value, serializer in\n\
\x20           try serializer.serialize_i32(value: value)\n\
\x20       }\n"
    ));
    assert!(out.contains(
        "\nfunc serialize_option_i32<S: Serializer>(value: Int32?, serializer: S) throws {\n\
\x20   if let value = value {\n\
\x20       try serializer.serialize_option_tag(value: true)\n\
\x20       try serializer.serialize_i32(value: value)\n\
\x20   } else {\n\
\x20       try serializer.serialize_option_tag(value: false)\n\
\x20   }\n\
}\n\
\n\
func deserialize_option_i32<D: Deserializer>(deserializer: D) throws -> Int32? {\n\
\x20   let tag = try deserializer.deserialize_option_tag()\n\
\x20   if tag {\n\
\x20       return try deserializer.deserialize_i32()\n\
\x20   } else {\n\
\x20       return nil\n\
\x20   }\n\
}\n\
\n"
    ));
}

#[test]
fn swift_plain_output_has_no_helpers() {
    let registry = one_struct("Holder", vec![field("value", Format::Option(Box::new(Format::I32)))], Doc::new());
    let config = CodeGeneratorConfig::new("M".to_string());
    let out = swift_output(&config, &registry);
    assert!(!out.contains("func serialize_option_i32"));
    assert!(!out.contains("serialize(serializer"));
}

#[test]
fn swift_imports_sorted_namespaces() {
    let mut defs = SortedMap::new();
    defs.insert("other_ns".to_string(), vec!["A".to_string()]);
    defs.insert("alpha".to_string(), vec!["B".to_string()]);
    let config = CodeGeneratorConfig::new("M".to_string()).with_external_definitions(defs);
    let registry = Registry::new();
    assert_eq!(swift_output(&config, &registry), "import Alpha\nimport OtherNs\n");
}

#[test]
fn swift_type_names_of_other_namespaces_are_qualified() {
    let registry = one_struct(
        "Holder",
        vec![
            field("tree", Format::TypeName(QualifiedTypeName::namespaced("foo".to_string(), "Tree".to_string()))),
            field("pair", Format::Tuple(vec![Format::U8, Format::Bool])),
            field("map", Format::MapOf { key: Box::new(Format::Str), value: Box::new(Format::Sequence(Box::new(Format::U64))) }),
        ],
        Doc::new(),
    );
    let config = CodeGeneratorConfig::new("M".to_string());
    let out = swift_output(&config, &registry);
    assert!(out.contains("    public var tree: Foo.Tree\n"));
    assert!(out.contains("    public var pair: (UInt8, Bool)\n"));
    assert!(out.contains("    public var map: [String: [UInt64]]\n"));
}

#[test]
fn swift_update_qualified_names_changes_nothing() {
    let mut defs = SortedMap::new();
    defs.insert("foo".to_string(), vec!["Tree".to_string()]);
    let config = CodeGeneratorConfig::new("M".to_string()).with_external_definitions(defs);
    let registry = one_struct(
        "Holder",
        vec![field("tree", Format::TypeName(QualifiedTypeName::namespaced("foo".to_string(), "Tree".to_string())))],
        Doc::new(),
    );
    let updated = CodeGenerator::update_qualified_names(&config, &registry);
    assert_eq!(updated, registry);
}

#[test]
fn swift_normalize_path() {
    assert_eq!(normalize_path("C:\\Users\\me\\pkg"), "C:/Users/me/pkg");
    assert_eq!(normalize_path("already/fine"), "already/fine");
}

#[test]
fn remote_package() {
    let dependency = ExternalPackage {
        for_namespace: "SQLite.swift".to_string(),
        location: PackageLocation::Url("https://github.com/stephencelis/SQLite.swift.git".to_string()),
        module_name: None,
        version: Some("0.12.2".to_string()),
    };
    assert_eq!(
        dependency.to_swift(3),
        "            .package(\n                url: \"https://github.com/stephencelis/SQLite.swift.git\",\n                from: \"0.12.2\"\n            )"
    );
}

#[test]
fn local_package() {
    let dependency = ExternalPackage {
        for_namespace: "SQLite.swift".to_string(),
        location: PackageLocation::Path("path/to/SQLite.swift".to_string()),
        module_name: None,
        version: None,
    };
    assert_eq!(
        dependency.to_swift(3),
        "            .package(\n                path: \"path/to/SQLite.swift\"\n            )"
    );
}

fn install_modules(installer: &mut Installer, registry: &Registry, package_name: &str, encoding: Encoding) {
    for (module, module_registry) in split(package_name, registry) {
        let config = module.config().duplicate().with_encoding(encoding);
        let _ = module_registry;
        installer.register_module(&config);
    }
}

#[test]
fn simple_manifest() {
    let package_name = "MyPackage";
    let installer = Installer::new(package_name, "/tmp/out");
    let manifest = installer.make_manifest(package_name);
    assert_eq!(
        manifest,
        "// swift-tools-version: 5.8\nimport PackageDescription\n\nlet package = Package(\n    name: \"MyPackage\",\n    products: [\n        .library(\n            name: \"MyPackage\",\n            targets: [\"MyPackage\"]\n        )\n    ],\n    targets: [\n        .target(\n            name: \"MyPackage\",\n            dependencies: []\n        ),\n    ]\n)\n"
    );
}

#[test]
fn manifest_with_serde_as_target() {
    let registry = one_struct("MyStruct", vec![field("id", Format::U32), field("name", Format::Str)], Doc::new());
    let package_name = "MyPackage";
    let mut installer = Installer::new(package_name, "/tmp/out");
    install_modules(&mut installer, &registry, package_name, Encoding::Bincode);
    installer.record_serde_runtime();
    let manifest = installer.make_manifest(package_name);
    assert_eq!(
        manifest,
        "// swift-tools-version: 5.8\nimport PackageDescription\n\nlet package = Package(\n    name: \"MyPackage\",\n    products: [\n        .library(\n            name: \"MyPackage\",\n            targets: [\"MyPackage\"]\n        )\n    ],\n    targets: [\n        .target(\n            name: \"MyPackage\",\n            dependencies: [\"Serde\"]\n        ),\n        .target(\n            name: \"Serde\",\n            dependencies: []\n        ),\n    ]\n)\n"
    );
}

fn root_with_child(namespace: &str) -> Registry {
    let mut registry = Registry::new();
    registry.insert(
        QualifiedTypeName::root("Root".to_string()),
        ContainerFormat::Struct(
            vec![field("child", Format::TypeName(QualifiedTypeName::namespaced(namespace.to_string(), "Child".to_string())))],
            Doc::new(),
        ),
    );
    registry.insert(
        QualifiedTypeName::namespaced(namespace.to_string(), "Child".to_string()),
        ContainerFormat::Struct(vec![field("name", Format::Str)], Doc::new()),
    );
    registry
}

#[test]
fn installer_tests_manifest_with_namespaces() {
    let registry = root_with_child("another_target");
    let package_name = "MyPackage";
    let mut installer = Installer::new(package_name, "/tmp/out");
    install_modules(&mut installer, &registry, package_name, Encoding::Bincode);
    let manifest = installer.make_manifest(package_name);
    assert_eq!(
        manifest,
        "// swift-tools-version: 5.8\nimport PackageDescription\n\nlet package = Package(\n    name: \"MyPackage\",\n    products: [\n        .library(\n            name: \"MyPackage\",\n            targets: [\"MyPackage\"]\n        )\n    ],\n    targets: [\n        .target(\n            name: \"AnotherTarget\",\n            dependencies: [\"Serde\"]\n        ),\n        .target(\n            name: \"MyPackage\",\n            dependencies: [\"AnotherTarget\", \"Serde\"]\n        ),\n    ]\n)\n"
    );
}

fn another_package() -> ExternalPackage {
    ExternalPackage {
        for_namespace: "another_package".to_string(),
        location: PackageLocation::Url("https://github.com/example/another_package".to_string()),
        module_name: None,
        version: Some("1.0".to_string()),
    }
}

#[test]
fn manifest_with_remote_dependencies() {
    let package_name = "MyPackage";
    let mut package = another_package();
    package.for_namespace = "AnotherPackage".to_string();
    let installer = Installer::new(package_name, "/tmp/out").external_packages(&[package]);
    let manifest = installer.make_manifest(package_name);
    assert_eq!(
        manifest,
        "// swift-tools-version: 5.8\nimport PackageDescription\n\nlet package = Package(\n    name: \"MyPackage\",\n    products: [\n        .library(\n            name: \"MyPackage\",\n            targets: [\"MyPackage\"]\n        )\n    ],\n    dependencies: [\n        .package(\n            url: \"https://github.com/example/another_package\",\n            from: \"1.0\"\n        )\n    ],\n    targets: [\n        .target(\n            name: \"MyPackage\",\n            dependencies: []\n        ),\n    ]\n)\n"
    );
}

#[test]
fn installer_tests_manifest_with_namespaces_and_dependencies() {
    let registry = root_with_child("another_package");
    let package_name = "MyPackage";
    let mut installer = Installer::new(package_name, "/tmp/out").external_packages(&[another_package()]);
    install_modules(&mut installer, &registry, package_name, Encoding::Bincode);
    let manifest = installer.make_manifest(package_name);
    assert_eq!(
        manifest,
        "// swift-tools-version: 5.8\nimport PackageDescription\n\nlet package = Package(\n    name: \"MyPackage\",\n    products: [\n        .library(\n            name: \"MyPackage\",\n            targets: [\"MyPackage\"]\n        )\n    ],\n    dependencies: [\n        .package(\n            url: \"https://github.com/example/another_package\",\n            from: \"1.0\"\n        )\n    ],\n    targets: [\n        .target(\n            name: \"MyPackage\",\n            dependencies: [\"AnotherPackage\", \"Serde\"]\n        ),\n    ]\n)\n"
    );
}

#[test]
fn swift_generate_plans_sources_and_manifest() {
    let registry = root_with_child("another_target");
    let mut installer = Installer::new("MyPackage", "/tmp/out").encoding(Encoding::Json);
    let package = installer.generate(&registry);
    assert!(package.serde_runtime);
    let dirs: Vec<&str> = package.sources.iter().map(|s| s.directory.as_str()).collect();
    assert_eq!(dirs, vec!["Sources/MyPackage", "Sources/AnotherTarget"]);
    assert_eq!(package.sources[0].file, "MyPackage.swift");
    assert!(package.sources[0].contents.starts_with("import AnotherTarget\nimport Serde\npublic struct Root: Hashable, Equatable {\n"));
    assert!(package.manifest.contains("            name: \"Serde\",\n            dependencies: []\n"));
}

#[test]
fn swift_generate_skips_modules_of_external_packages() {
    let registry = root_with_child("another_package");
    let mut installer = Installer::new("MyPackage", "/tmp/out").external_packages(&[another_package()]);
    let package = installer.generate(&registry);
    assert!(!package.serde_runtime);
    assert_eq!(package.sources.len(), 1);
    assert_eq!(package.sources[0].directory, "Sources/MyPackage");
}

fn manifest_text(dependencies: &str, library_targets: &str, targets: &str, package_name: &str) -> String {
    format!(
        "// swift-tools-version: 5.8\nimport PackageDescription\n\nlet package = Package(\n    name: \"{package_name}\",\n    products: [\n        .library(\n            name: \"{package_name}\",\n            targets: [{library_targets}]\n        )\n    ],\n{dependencies}    targets: [\n{targets}    ]\n)\n"
    )
}

fn target_text(name: &str, dependencies: &str) -> String {
    format!("        .target(\n            name: \"{name}\",\n            dependencies: [{dependencies}]\n        ),\n")
}

fn my_struct_id_name() -> Registry {
    one_struct("MyStruct", vec![field("id", Format::U32), field("name", Format::Str)], Doc::new())
}

#[test]
fn manifest_with_serde_as_a_remote_dependency() {
    let registry = my_struct_id_name();
    let package_name = "MyPackage";
    let serde = ExternalPackage {
        for_namespace: "serde".to_string(),
        location: PackageLocation::Url("https://github.com/serde-rs/serde".to_string()),
        module_name: None,
        version: Some("1.0.137".to_string()),
    };
    let mut installer = Installer::new(package_name, "/tmp/out").external_packages(&[serde]);
    install_modules(&mut installer, &registry, package_name, Encoding::Bincode);
    let manifest = installer.make_manifest(package_name);
    assert_eq!(
        manifest,
        manifest_text(
            "    dependencies: [\n        .package(\n            url: \"https://github.com/serde-rs/serde\",\n            from: \"1.0.137\"\n        )\n    ],\n",
            "\"MyPackage\"",
            &target_text("MyPackage", "\"Serde\""),
            package_name,
        )
    );
}

#[test]
fn manifest_with_serde_as_a_local_dependency() {
    let registry = my_struct_id_name();
    let package_name = "MyPackage";
    let serde = ExternalPackage {
        for_namespace: "serde".to_string(),
        location: PackageLocation::Path("../Serde".to_string()),
        module_name: None,
        version: None,
    };
    let mut installer = Installer::new(package_name, "/tmp/out").external_packages(&[serde]);
    install_modules(&mut installer, &registry, package_name, Encoding::Bincode);
    let manifest = installer.make_manifest(package_name);
    assert_eq!(
        manifest,
        manifest_text(
            "    dependencies: [\n        .package(\n            path: \"../Serde\"\n        )\n    ],\n",
            "\"MyPackage\"",
            &target_text("MyPackage", "\"Serde\""),
            package_name,
        )
    );
}

/// `Root { id: u32 }` in the root namespace, and `Another { name: String }` in
/// `another_namespace`.
fn disjoint_namespaces() -> Registry {
    let mut registry = Registry::new();
    registry.insert(
        QualifiedTypeName::root("Root".to_string()),
        ContainerFormat::Struct(vec![field("id", Format::U32)], Doc::new()),
    );
    registry.insert(
        QualifiedTypeName::namespaced("another_namespace".to_string(), "Another".to_string()),
        ContainerFormat::Struct(vec![field("name", Format::Str)], Doc::new()),
    );
    registry
}

#[test]
fn manifest_with_disjoint_namespaces() {
    let registry = disjoint_namespaces();
    let package_name = "MyPackage";
    let mut installer = Installer::new(package_name, "/tmp/out");
    install_modules(&mut installer, &registry, package_name, Encoding::Bincode);
    let manifest = installer.make_manifest(package_name);
    assert_eq!(
        manifest,
        manifest_text(
            "",
            "\"AnotherNamespace\", \"MyPackage\"",
            &(target_text("AnotherNamespace", "\"Serde\"") + &target_text("MyPackage", "\"Serde\"")),
            package_name,
        )
    );
}

#[test]
fn manifest_with_disjoint_namespaces_and_dependencies() {
    let registry = disjoint_namespaces();
    let package_name = "MyPackage";
    let mut package = another_package();
    package.for_namespace = "another_namespace".to_string();
    let mut installer = Installer::new(package_name, "/tmp/out").external_packages(&[package]);
    install_modules(&mut installer, &registry, package_name, Encoding::Bincode);
    let manifest = installer.make_manifest(package_name);
    assert_eq!(
        manifest,
        manifest_text(
            "    dependencies: [\n        .package(\n            url: \"https://github.com/example/another_package\",\n            from: \"1.0\"\n        )\n    ],\n",
            "\"MyPackage\"",
            &target_text("MyPackage", "\"Serde\""),
            package_name,
        )
    );
}

#[test]
fn external_dependencies_collected_across_multiple_types_in_same_namespace() {
    let mut registry = Registry::new();
    let grand_child = || QualifiedTypeName::namespaced("api".to_string(), "GrandChild".to_string());
    registry.insert(grand_child(), ContainerFormat::Struct(vec![field("test", Format::Str)], Doc::new()));
    registry.insert(
        QualifiedTypeName::root("Child".to_string()),
        ContainerFormat::Struct(vec![field("api", Format::TypeName(grand_child()))], Doc::new()),
    );
    registry.insert(
        QualifiedTypeName::root("Parent".to_string()),
        ContainerFormat::Struct(
            vec![field("event", Format::TypeName(QualifiedTypeName::root("Child".to_string())))],
            Doc::new(),
        ),
    );
    let package_name = "App";
    let api = ExternalPackage {
        for_namespace: "api".to_string(),
        location: PackageLocation::Path("../Api".to_string()),
        module_name: None,
        version: None,
    };
    let mut installer = Installer::new(package_name, "/tmp/out").external_packages(&[api]);
    install_modules(&mut installer, &registry, package_name, Encoding::Bincode);
    let manifest = installer.make_manifest(package_name);
    assert_eq!(
        manifest,
        manifest_text(
            "    dependencies: [\n        .package(\n            path: \"../Api\"\n        )\n    ],\n",
            "\"App\"",
            &target_text("App", "\"Api\", \"Serde\""),
            package_name,
        )
    );
}

#[test]
fn manifest_without_serde() {
    let package_name = "MyPackage";
    let installer = Installer::new(package_name, "/tmp/out");
    let manifest = installer.make_manifest(package_name);
    assert_eq!(manifest, manifest_text("", "\"MyPackage\"", &target_text("MyPackage", ""), package_name));
}

#[test]
fn tests_manifest_with_namespaces() {
    let registry = root_with_child("my_namespace");
    let package_name = "MyPackage";
    let mut installer = Installer::new(package_name, "/tmp/out");
    install_modules(&mut installer, &registry, package_name, Encoding::Plain);
    let manifest = installer.make_manifest(package_name);
    assert_eq!(
        manifest,
        manifest_text(
            "",
            "\"MyPackage\"",
            &(target_text("MyNamespace", "") + &target_text("MyPackage", "\"MyNamespace\"")),
            package_name,
        )
    );
}

#[test]
fn swift_output_of_root_module_without_encoding() {
    let other_child = QualifiedTypeName::namespaced("other".to_string(), "Child".to_string());
    let mut registry = Registry::new();
    registry.insert(QualifiedTypeName::root("Child".to_string()), ContainerFormat::Struct(vec![field("value", Format::Str)], Doc::new()));
    registry.insert(other_child.clone(), ContainerFormat::Struct(vec![field("value", Format::I32)], Doc::new()));
    registry.insert(
        QualifiedTypeName::root("Parent".to_string()),
        ContainerFormat::Struct(
            vec![
                field("child", Format::TypeName(QualifiedTypeName::root("Child".to_string()))),
                field("other_child", Format::TypeName(other_child)),
            ],
            Doc::new(),
        ),
    );
    let modules = split("root", &registry);
    let (root_module, root_registry) = &modules[1];
    let out = swift_output(root_module.config(), root_registry);
    assert!(out.starts_with("import Other\npublic struct Child {\n    public var value: String\n"));
    assert!(out.contains("\npublic struct Parent {\n    public var child: Child\n    public var otherChild: Other.Child\n"));
    assert!(out.contains("    public init(child: Child, otherChild: Other.Child) {\n"));
    assert!(!out.contains("Hashable"));
    assert!(!out.contains("import Serde"));
}
