use facet_generate::generation::indent::{IndentConfig, IndentedWriter};
use facet_generate::generation::module::{split, Module};
use facet_generate::generation::swift::emitter::{write_container, Swift};
use facet_generate::generation::{CodeGeneratorConfig, Emitter, Encoding};
use facet_generate::reflection::format::{ContainerFormat, Doc, Format, Named, QualifiedTypeName, VariantFormat};
use facet_generate::util::sorted_map::SortedMap;
use facet_generate::Registry;

/// The module header of `config`, then each definition of `registry` after a blank line.
fn emit_module(config: &CodeGeneratorConfig, registry: &Registry) -> String {
    let lang = Swift::new(config.encoding);
    let mut w = IndentedWriter::new(IndentConfig::Space(4));
    Module::new(config).write(&mut w, lang);
    for (name, format) in registry.iter() {
        w.newline();
        write_container(&mut w, lang, name, format);
    }
    w.into_string()
}

/// The definitions of `registry` without an encoding.
fn emit(registry: &Registry) -> String {
    emit_module(&CodeGeneratorConfig::new("root".to_string()).with_encoding(Encoding::Plain), registry)
}

fn assert_emitted(actual: &str, expected: &str) {
    assert_eq!(actual.trim(), expected.trim());
}

fn doc(lines: &[&str]) -> Doc {
    Doc::from_comments(lines.iter().map(|l| l.to_string()).collect())
}

fn field(name: &str, value: Format) -> Named<Format> {
    Named { name: name.to_string(), doc: Doc::new(), value }
}

fn field_doc(name: &str, value: Format, lines: &[&str]) -> Named<Format> {
    Named { name: name.to_string(), doc: doc(lines), value }
}

fn variant(name: &str, value: VariantFormat) -> Named<VariantFormat> {
    Named { name: name.to_string(), doc: Doc::new(), value }
}

fn variant_doc(name: &str, value: VariantFormat, lines: &[&str]) -> Named<VariantFormat> {
    Named { name: name.to_string(), doc: doc(lines), value }
}

fn b(f: Format) -> Box<Format> {
    Box::new(f)
}

fn seq_of(f: Format) -> Format {
    Format::Sequence(b(f))
}

fn set_of(f: Format) -> Format {
    Format::SetOf(b(f))
}

fn option_of(f: Format) -> Format {
    Format::Option(b(f))
}

fn map_of(k: Format, v: Format) -> Format {
    Format::MapOf { key: b(k), value: b(v) }
}

fn array_of(f: Format, size: usize) -> Format {
    Format::TupleArray { content: b(f), size }
}

fn named_type(name: &str) -> Format {
    Format::TypeName(QualifiedTypeName::root(name.to_string()))
}

fn registry(entries: Vec<(&str, ContainerFormat)>) -> Registry {
    let mut registry = Registry::new();
    for (name, format) in entries {
        registry.insert(QualifiedTypeName::root(name.to_string()), format);
    }
    registry
}

fn my_struct(fields: Vec<Named<Format>>) -> Registry {
    registry(vec![("MyStruct", ContainerFormat::Struct(fields, Doc::new()))])
}

fn named_enum(name: &str, variants: Vec<Named<VariantFormat>>, d: Doc) -> Registry {
    let mut map = SortedMap::new();
    for (i, v) in variants.into_iter().enumerate() {
        map.insert(i as u32, v);
    }
    registry(vec![(name, ContainerFormat::Enum(map, d))])
}

fn my_enum(variants: Vec<Named<VariantFormat>>, d: Doc) -> Registry {
    named_enum("MyEnum", variants, d)
}


#[test]
fn tests_unit_struct_1() {
    let registry = registry(vec![("UnitStruct", ContainerFormat::UnitStruct(doc(&["line 1", "line 2"])))]);
    assert_emitted(
        &emit(&registry),
        r#"
/// line 1
/// line 2
public struct UnitStruct {
    public init() {
    }
}
"#,
    );
}

#[test]
fn tests_unit_struct_2() {
    let registry = registry(vec![("UnitStruct", ContainerFormat::Struct(vec![], doc(&["line 1", "line 2"])))]);
    assert_emitted(
        &emit(&registry),
        r#"
/// line 1
/// line 2
public struct UnitStruct {
    public init() {
    }
}
"#,
    );
}

#[test]
fn tests_newtype_struct() {
    let registry = registry(vec![("NewType", ContainerFormat::NewTypeStruct(b(Format::Str), doc(&["line 1", "line 2"])))]);
    assert_emitted(
        &emit(&registry),
        r#"
/// line 1
/// line 2
public struct NewType {
    public var value: String

    public init(value: String) {
        self.value = value
    }
}
"#,
    );
}

#[test]
fn tests_tuple_struct() {
    let registry = registry(vec![(
        "TupleStruct",
        ContainerFormat::TupleStruct(vec![Format::Str, Format::I32], doc(&["line 1", "line 2"])),
    )]);
    assert_emitted(
        &emit(&registry),
        r#"
/// line 1
/// line 2
public struct TupleStruct {
    public var field0: String
    public var field1: Int32

    public init(field0: String, field1: Int32) {
        self.field0 = field0
        self.field1 = field1
    }
}
"#,
    );
}

#[test]
fn tests_struct_with_fields_of_primitive_types() {
    let registry = registry(vec![(
        "StructWithFields",
        ContainerFormat::Struct(
            vec![
                field_doc("unit", Format::Unit, &["unit type"]),
                field_doc("bool", Format::Bool, &["boolean"]),
                field("i8", Format::I8),
                field("i16", Format::I16),
                field("i32", Format::I32),
                field("i64", Format::I64),
                field("i128", Format::I128),
                field("u8", Format::U8),
                field("u16", Format::U16),
                field("u32", Format::U32),
                field("u64", Format::U64),
                field("u128", Format::U128),
                field("f32", Format::F32),
                field("f64", Format::F64),
                field("char", Format::Char),
                field("string", Format::Str),
            ],
            doc(&["line 1", "line 2"]),
        ),
    )]);
    assert_emitted(
        &emit(&registry),
        r#"
/// line 1
/// line 2
public struct StructWithFields {
    /// unit type
    public var unit: Void
    /// boolean
    public var bool: Bool
    public var i8: Int8
    public var i16: Int16
    public var i32: Int32
    public var i64: Int64
    public var i128: Int128
    public var u8: UInt8
    public var u16: UInt16
    public var u32: UInt32
    public var u64: UInt64
    public var u128: UInt128
    public var f32: Float
    public var f64: Double
    public var char: Character
    public var string: String

    public init(unit: Void, bool: Bool, i8: Int8, i16: Int16, i32: Int32, i64: Int64, i128: Int128, u8: UInt8, u16: UInt16, u32: UInt32, u64: UInt64, u128: UInt128, f32: Float, f64: Double, char: Character, string: String) {
        self.unit = unit
        self.bool = bool
        self.i8 = i8
        self.i16 = i16
        self.i32 = i32
        self.i64 = i64
        self.i128 = i128
        self.u8 = u8
        self.u16 = u16
        self.u32 = u32
        self.u64 = u64
        self.u128 = u128
        self.f32 = f32
        self.f64 = f64
        self.char = char
        self.string = string
    }
}
"#,
    );
}

#[test]
fn tests_struct_with_fields_of_user_types() {
    let registry = registry(vec![
        ("Inner1", ContainerFormat::Struct(vec![field("field1", Format::Str)], Doc::new())),
        ("Inner2", ContainerFormat::NewTypeStruct(b(Format::Str), Doc::new())),
        ("Inner3", ContainerFormat::TupleStruct(vec![Format::Str, Format::I32], Doc::new())),
        (
            "Outer",
            ContainerFormat::Struct(
                vec![field("one", named_type("Inner1")), field("two", named_type("Inner2")), field("three", named_type("Inner3"))],
                Doc::new(),
            ),
        ),
    ]);
    assert_emitted(
        &emit(&registry),
        r#"
public struct Inner1 {
    public var field1: String

    public init(field1: String) {
        self.field1 = field1
    }
}

public struct Inner2 {
    public var value: String

    public init(value: String) {
        self.value = value
    }
}

public struct Inner3 {
    public var field0: String
    public var field1: Int32

    public init(field0: String, field1: Int32) {
        self.field0 = field0
        self.field1 = field1
    }
}

public struct Outer {
    public var one: Inner1
    public var two: Inner2
    public var three: Inner3

    public init(one: Inner1, two: Inner2, three: Inner3) {
        self.one = one
        self.two = two
        self.three = three
    }
}
"#,
    );
}

#[test]
fn tests_struct_with_field_that_is_a_2_tuple() {
    let registry = my_struct(vec![field("one", Format::Tuple(vec![Format::Str, Format::I32]))]);
    assert_emitted(
        &emit(&registry),
        r#"
public struct MyStruct {
    public var one: (String, Int32)

    public init(one: (String, Int32)) {
        self.one = one
    }
}
"#,
    );
}

#[test]
fn tests_struct_with_field_that_is_a_3_tuple() {
    let registry = my_struct(vec![field("one", Format::Tuple(vec![Format::Str, Format::I32, Format::U16]))]);
    assert_emitted(
        &emit(&registry),
        r#"
public struct MyStruct {
    public var one: (String, Int32, UInt16)

    public init(one: (String, Int32, UInt16)) {
        self.one = one
    }
}
"#,
    );
}

#[test]
fn tests_struct_with_field_that_is_a_4_tuple() {
    let registry = my_struct(vec![field("one", Format::Tuple(vec![Format::Str, Format::I32, Format::U16, Format::F32]))]);
    assert_emitted(
        &emit(&registry),
        r#"
public struct MyStruct {
    public var one: (String, Int32, UInt16, Float)

    public init(one: (String, Int32, UInt16, Float)) {
        self.one = one
    }
}
"#,
    );
}

#[test]
fn tests_enum_with_unit_variants() {
    let registry = named_enum(
        "EnumWithUnitVariants",
        vec![
            variant_doc("Variant1", VariantFormat::Unit, &["variant one"]),
            variant("Variant2", VariantFormat::Unit),
            variant_doc("Variant3", VariantFormat::Unit, &["variant three"]),
        ],
        doc(&["line one", "line two"]),
    );
    assert_emitted(
        &emit(&registry),
        r#"
/// line one
/// line two
indirect public enum EnumWithUnitVariants {
    /// variant one
    case variant1
    case variant2
    /// variant three
    case variant3
}
"#,
    );
}

#[test]
fn tests_enum_with_unit_struct_variants() {
    let registry = my_enum(vec![variant("Variant1", VariantFormat::Unit)], Doc::new());
    assert_emitted(
        &emit(&registry),
        r#"
indirect public enum MyEnum {
    case variant1
}
"#,
    );
}

#[test]
fn tests_enum_with_1_tuple_variants() {
    let registry = my_enum(vec![variant("Variant1", VariantFormat::NewType(b(Format::Str)))], Doc::new());
    assert_emitted(
        &emit(&registry),
        r#"
indirect public enum MyEnum {
    case variant1(String)
}
"#,
    );
}

#[test]
fn tests_enum_with_newtype_variants() {
    let registry = my_enum(
        vec![variant("Variant1", VariantFormat::NewType(b(Format::Str))), variant("Variant2", VariantFormat::NewType(b(Format::I32)))],
        Doc::new(),
    );
    assert_emitted(
        &emit(&registry),
        r#"
indirect public enum MyEnum {
    case variant1(String)
    case variant2(Int32)
}
"#,
    );
}

#[test]
fn tests_enum_with_tuple_variants() {
    let registry = my_enum(
        vec![
            variant("Variant1", VariantFormat::Tuple(vec![Format::Str, Format::I32])),
            variant("Variant2", VariantFormat::Tuple(vec![Format::Bool, Format::F64, Format::U8])),
        ],
        Doc::new(),
    );
    assert_emitted(
        &emit(&registry),
        r#"
indirect public enum MyEnum {
    case variant1(String, Int32)
    case variant2(Bool, Double, UInt8)
}
"#,
    );
}

#[test]
fn tests_enum_with_struct_variants() {
    let registry = my_enum(
        vec![variant("Variant1", VariantFormat::Struct(vec![field("field1", Format::Str), field("field2", Format::I32)]))],
        Doc::new(),
    );
    assert_emitted(
        &emit(&registry),
        r#"
indirect public enum MyEnum {
    case variant1(field1: String, field2: Int32)
}
"#,
    );
}

#[test]
fn tests_enum_with_mixed_variants() {
    let registry = my_enum(
        vec![
            variant("Unit", VariantFormat::Unit),
            variant("NewType", VariantFormat::NewType(b(Format::Str))),
            variant("Tuple", VariantFormat::Tuple(vec![Format::Str, Format::I32])),
            variant("Struct", VariantFormat::Struct(vec![field("field", Format::Bool)])),
        ],
        Doc::new(),
    );
    assert_emitted(
        &emit(&registry),
        r#"
indirect public enum MyEnum {
    case unit
    case newType(String)
    case tuple(String, Int32)
    case struct(field: Bool)
}
"#,
    );
}

#[test]
fn tests_struct_with_vec_field() {
    let registry = my_struct(vec![
        field("items", seq_of(Format::Str)),
        field("numbers", seq_of(Format::I32)),
        field("nested_items", seq_of(seq_of(Format::Str))),
    ]);
    assert_emitted(
        &emit(&registry),
        r#"
public struct MyStruct {
    public var items: [String]
    public var numbers: [Int32]
    public var nestedItems: [[String]]

    public init(items: [String], numbers: [Int32], nestedItems: [[String]]) {
        self.items = items
        self.numbers = numbers
        self.nestedItems = nestedItems
    }
}
"#,
    );
}

#[test]
fn tests_struct_with_option_field() {
    let registry = my_struct(vec![
        field("optional_string", option_of(Format::Str)),
        field("optional_number", option_of(Format::I32)),
        field("optional_bool", option_of(Format::Bool)),
    ]);
    assert_emitted(
        &emit(&registry),
        r#"
public struct MyStruct {
    public var optionalString: String?
    public var optionalNumber: Int32?
    public var optionalBool: Bool?

    public init(optionalString: String?, optionalNumber: Int32?, optionalBool: Bool?) {
        self.optionalString = optionalString
        self.optionalNumber = optionalNumber
        self.optionalBool = optionalBool
    }
}
"#,
    );
}

fn string_to_int_and_int_to_bool() -> Registry {
    my_struct(vec![
        field("string_to_int", map_of(Format::Str, Format::I32)),
        field("int_to_bool", map_of(Format::I32, Format::Bool)),
    ])
}

const STRING_TO_INT_AND_INT_TO_BOOL: &str = r#"
public struct MyStruct {
    public var stringToInt: [String: Int32]
    public var intToBool: [Int32: Bool]

    public init(stringToInt: [String: Int32], intToBool: [Int32: Bool]) {
        self.stringToInt = stringToInt
        self.intToBool = intToBool
    }
}
"#;

#[test]
fn tests_struct_with_hashmap_field() {
    assert_emitted(&emit(&string_to_int_and_int_to_bool()), STRING_TO_INT_AND_INT_TO_BOOL);
}

#[test]
fn tests_struct_with_nested_generics() {
    let registry = my_struct(vec![
        field("optional_list", option_of(seq_of(Format::Str))),
        field("list_of_options", seq_of(option_of(Format::I32))),
        field("map_to_list", map_of(Format::Str, seq_of(Format::Bool))),
        field("optional_map", option_of(map_of(Format::Str, Format::I32))),
        field("complex", seq_of(option_of(map_of(Format::Str, seq_of(Format::Bool))))),
    ]);
    assert_emitted(
        &emit(&registry),
        r#"
public struct MyStruct {
    public var optionalList: [String]?
    public var listOfOptions: [Int32?]
    public var mapToList: [String: [Bool]]
    public var optionalMap: [String: Int32]?
    public var complex: [[String: [Bool]]?]

    public init(optionalList: [String]?, listOfOptions: [Int32?], mapToList: [String: [Bool]], optionalMap: [String: Int32]?, complex: [[String: [Bool]]?]) {
        self.optionalList = optionalList
        self.listOfOptions = listOfOptions
        self.mapToList = mapToList
        self.optionalMap = optionalMap
        self.complex = complex
    }
}
"#,
    );
}

#[test]
fn tests_struct_with_array_field() {
    let registry = my_struct(vec![
        field("fixed_array", array_of(Format::I32, 5)),
        field("byte_array", array_of(Format::U8, 32)),
        field("string_array", array_of(Format::Str, 3)),
    ]);
    assert_emitted(
        &emit(&registry),
        r#"
public struct MyStruct {
    public var fixedArray: [Int32]
    public var byteArray: [UInt8]
    public var stringArray: [String]

    public init(fixedArray: [Int32], byteArray: [UInt8], stringArray: [String]) {
        self.fixedArray = fixedArray
        self.byteArray = byteArray
        self.stringArray = stringArray
    }
}
"#,
    );
}

#[test]
fn struct_with_map_fields() {
    assert_emitted(&emit(&string_to_int_and_int_to_bool()), STRING_TO_INT_AND_INT_TO_BOOL);
}

const STRING_SET_AND_INT_SET: &str = r#"
public struct MyStruct {
    public var stringSet: Set<String>
    public var intSet: Set<Int32>

    public init(stringSet: Set<String>, intSet: Set<Int32>) {
        self.stringSet = stringSet
        self.intSet = intSet
    }
}
"#;

#[test]
fn tests_struct_with_hashset_field() {
    let registry = my_struct(vec![field("string_set", set_of(Format::Str)), field("int_set", set_of(Format::I32))]);
    assert_emitted(&emit(&registry), STRING_SET_AND_INT_SET);
}

#[test]
fn struct_with_set_fields() {
    let registry = my_struct(vec![field("string_set", set_of(Format::Str)), field("int_set", set_of(Format::I32))]);
    assert_emitted(&emit(&registry), STRING_SET_AND_INT_SET);
}

#[test]
fn tests_struct_with_box_field() {
    let registry = my_struct(vec![field("boxed_string", Format::Str), field("boxed_int", Format::I32)]);
    assert_emitted(
        &emit(&registry),
        r#"
public struct MyStruct {
    public var boxedString: String
    public var boxedInt: Int32

    public init(boxedString: String, boxedInt: Int32) {
        self.boxedString = boxedString
        self.boxedInt = boxedInt
    }
}
"#,
    );
}

#[test]
fn tests_struct_with_rc_field() {
    let registry = my_struct(vec![field("rc_string", Format::Str), field("rc_int", Format::I32)]);
    assert_emitted(
        &emit(&registry),
        r#"
public struct MyStruct {
    public var rcString: String
    public var rcInt: Int32

    public init(rcString: String, rcInt: Int32) {
        self.rcString = rcString
        self.rcInt = rcInt
    }
}
"#,
    );
}

#[test]
fn tests_struct_with_arc_field() {
    let registry = my_struct(vec![field("arc_string", Format::Str), field("arc_int", Format::I32)]);
    assert_emitted(
        &emit(&registry),
        r#"
public struct MyStruct {
    public var arcString: String
    public var arcInt: Int32

    public init(arcString: String, arcInt: Int32) {
        self.arcString = arcString
        self.arcInt = arcInt
    }
}
"#,
    );
}

#[test]
fn tests_struct_with_mixed_collections_and_pointers() {
    let registry = my_struct(vec![
        field("vec_of_sets", seq_of(set_of(Format::Str))),
        field("optional_btree", option_of(map_of(Format::Str, Format::I32))),
        field("boxed_vec", seq_of(Format::Str)),
        field("arc_option", option_of(Format::Str)),
        field("array_of_boxes", array_of(Format::I32, 3)),
    ]);
    assert_emitted(
        &emit(&registry),
        r#"
public struct MyStruct {
    public var vecOfSets: [Set<String>]
    public var optionalBtree: [String: Int32]?
    public var boxedVec: [String]
    public var arcOption: String?
    public var arrayOfBoxes: [Int32]

    public init(vecOfSets: [Set<String>], optionalBtree: [String: Int32]?, boxedVec: [String], arcOption: String?, arrayOfBoxes: [Int32]) {
        self.vecOfSets = vecOfSets
        self.optionalBtree = optionalBtree
        self.boxedVec = boxedVec
        self.arcOption = arcOption
        self.arrayOfBoxes = arrayOfBoxes
    }
}
"#,
    );
}

#[test]
fn tests_struct_with_bytes_field() {
    let registry = my_struct(vec![field("data", Format::Bytes), field("name", Format::Str), field("header", Format::Bytes)]);
    assert_emitted(
        &emit(&registry),
        r#"
public struct MyStruct {
    public var data: [UInt8]
    public var name: String
    public var header: [UInt8]

    public init(data: [UInt8], name: String, header: [UInt8]) {
        self.data = data
        self.name = name
        self.header = header
    }
}
"#,
    );
}

#[test]
fn tests_struct_with_bytes_field_and_slice() {
    let registry = my_struct(vec![
        field("data", Format::Bytes),
        field("name", Format::Str),
        field("header", Format::Bytes),
        field("optional_bytes", option_of(seq_of(Format::U8))),
    ]);
    assert_emitted(
        &emit(&registry),
        r#"
public struct MyStruct {
    public var data: [UInt8]
    public var name: String
    public var header: [UInt8]
    public var optionalBytes: [UInt8]?

    public init(data: [UInt8], name: String, header: [UInt8], optionalBytes: [UInt8]?) {
        self.data = data
        self.name = name
        self.header = header
        self.optionalBytes = optionalBytes
    }
}
"#,
    );
}

#[test]
fn tests_namespaced_child() {
    let child = QualifiedTypeName::namespaced("Test".to_string(), "Child".to_string());
    let mut registry = Registry::new();
    registry.insert(child.clone(), ContainerFormat::Struct(vec![field("test", Format::Str)], Doc::new()));
    registry.insert(
        QualifiedTypeName::root("Parent".to_string()),
        ContainerFormat::Struct(vec![field("child", Format::TypeName(child))], Doc::new()),
    );
    assert_emitted(
        &emit(&registry),
        r#"
public struct Parent {
    public var child: Test.Child

    public init(child: Test.Child) {
        self.child = child
    }
}

public struct Child {
    public var test: String

    public init(test: String) {
        self.test = test
    }
}
"#,
    );
}

#[test]
fn type_in_root_and_named_namespace() {
    let other_child = QualifiedTypeName::namespaced("other".to_string(), "Child".to_string());
    let mut registry = Registry::new();
    registry.insert(QualifiedTypeName::root("Child".to_string()), ContainerFormat::Struct(vec![field("value", Format::Str)], Doc::new()));
    registry.insert(other_child.clone(), ContainerFormat::Struct(vec![field("value", Format::I32)], Doc::new()));
    registry.insert(
        QualifiedTypeName::root("Parent".to_string()),
        ContainerFormat::Struct(
            vec![field("child", named_type("Child")), field("other_child", Format::TypeName(other_child))],
            Doc::new(),
        ),
    );
    let modules = split("root", &registry);
    assert_eq!(modules.len(), 2);
    let (other_module, other_registry) = &modules[0];
    let (root_module, root_registry) = &modules[1];
    assert_eq!(other_module.config().module_name, "other");
    assert_eq!(root_module.config().module_name, "root");
    let other = emit_module(other_module.config(), other_registry);
    let root = emit_module(root_module.config(), root_registry);
    assert_emitted(
        &other,
        r#"
public struct Child {
    public var value: Int32

    public init(value: Int32) {
        self.value = value
    }
}
"#,
    );
    assert_emitted(
        &root,
        r#"
import Other

public struct Child {
    public var value: String

    public init(value: String) {
        self.value = value
    }
}

public struct Parent {
    public var child: Child
    public var otherChild: Other.Child

    public init(child: Child, otherChild: Other.Child) {
        self.child = child
        self.otherChild = otherChild
    }
}
"#,
    );
}

#[test]
fn swift_encoded_types_use_the_serde_runtime() {
    let registry = my_struct(vec![field("unit", Format::Unit), field("pair", Format::Tuple(vec![Format::Str, Format::I32]))]);
    let config = CodeGeneratorConfig::new("root".to_string()).with_encoding(Encoding::Json);
    let out = emit_module(&config, &registry);
    assert!(out.starts_with("import Serde\n\npublic struct MyStruct: Hashable, Equatable {\n"));
    assert!(out.contains("    public var unit: Unit\n"));
    assert!(out.contains("    public var pair: Tuple2<String, Int32>\n"));
}
