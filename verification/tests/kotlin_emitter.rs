
use facet_generate::generation::indent::{IndentConfig, IndentedWriter};
use facet_generate::generation::kotlin::emitter::write_container;
use facet_generate::generation::Encoding;
use facet_generate::reflection::format::{ContainerFormat, Doc, Format, Named, QualifiedTypeName, VariantFormat};
use facet_generate::util::sorted_map::SortedMap;
use facet_generate::Registry;

/// The definitions of the registry, one after the other, separated by blank lines.
fn emit(registry: &Registry, encoding: Encoding) -> String {
    let mut w = IndentedWriter::new(IndentConfig::Space(4));
    for (i, (name, format)) in registry.iter().enumerate() {
        if i > 0 {
            w.newline();
        }
        write_container(&mut w, encoding, name, format);
    }
    w.into_string()
}

fn doc(lines: &[&str]) -> Doc {
    Doc::from_comments(lines.iter().map(|l| l.to_string()).collect())
}

fn field(name: &str, value: Format) -> Named<Format> {
    Named { name: name.to_string(), doc: Doc::new(), value }
}

fn field_doc(name: &str, value: Format, lines: &[&str]) -> Named<Format> {
    Named { name: name.to_string(), doc: doc(lines), value }
}

fn variant(name: &str, value: VariantFormat) -> Named<VariantFormat> {
    Named { name: name.to_string(), doc: Doc::new(), value }
}

fn variant_doc(name: &str, value: VariantFormat, lines: &[&str]) -> Named<VariantFormat> {
    Named { name: name.to_string(), doc: doc(lines), value }
}

fn b(f: Format) -> Box<Format> {
    Box::new(f)
}

fn seq_of(f: Format) -> Format {
    Format::Sequence(b(f))
}

fn option_of(f: Format) -> Format {
    Format::Option(b(f))
}

fn map_of(k: Format, v: Format) -> Format {
    Format::MapOf { key: b(k), value: b(v) }
}

fn array_of(f: Format, size: usize) -> Format {
    Format::TupleArray { content: b(f), size }
}

fn registry(entries: Vec<(&str, ContainerFormat)>) -> Registry {
    let mut registry = Registry::new();
    for (name, format) in entries {
        registry.insert(QualifiedTypeName::root(name.to_string()), format);
    }
    registry
}

fn enum_of(variants: Vec<Named<VariantFormat>>, d: Doc) -> ContainerFormat {
    let mut map = SortedMap::new();
    for (i, v) in variants.into_iter().enumerate() {
        map.insert(i as u32, v);
    }
    ContainerFormat::Enum(map, d)
}

fn my_struct(fields: Vec<Named<Format>>) -> Registry {
    registry(vec![("MyStruct", ContainerFormat::Struct(fields, Doc::new()))])
}

fn my_enum(variants: Vec<Named<VariantFormat>>) -> Registry {
    registry(vec![("MyEnum", enum_of(variants, Doc::new()))])
}

fn unit_struct_1() -> Registry {
    registry(vec![("UnitStruct", ContainerFormat::UnitStruct(doc(&["line 1", "line 2"])))])
}

fn unit_struct_2() -> Registry {
    registry(vec![("UnitStruct", ContainerFormat::Struct(Vec::new(), doc(&["line 1", "line 2"])))])
}

fn tuple_struct() -> Registry {
    registry(vec![("TupleStruct", ContainerFormat::TupleStruct(vec![Format::Str, Format::I32], doc(&["line 1", "line 2"])))])
}

fn struct_with_fields_of_primitive_types() -> Registry {
    let fields = vec![
        field_doc("unit", Format::Unit, &["unit type"]),
        field_doc("bool", Format::Bool, &["boolean"]),
        field("i8", Format::I8),
        field("i16", Format::I16),
        field("i32", Format::I32),
        field("i64", Format::I64),
        field("i128", Format::I128),
        field("u8", Format::U8),
        field("u16", Format::U16),
        field("u32", Format::U32),
        field("u64", Format::U64),
        field("u128", Format::U128),
        field("f32", Format::F32),
        field("f64", Format::F64),
        field("char", Format::Char),
        field("string", Format::Str),
    ];
    registry(vec![("StructWithFields", ContainerFormat::Struct(fields, doc(&["line 1", "line 2"])))])
}

fn struct_with_field_that_is_a_2_tuple() -> Registry {
    my_struct(vec![field("one", Format::Tuple(vec![Format::Str, Format::I32]))])
}

fn struct_with_field_that_is_a_3_tuple() -> Registry {
    my_struct(vec![field("one", Format::Tuple(vec![Format::Str, Format::I32, Format::U16]))])
}

fn struct_with_field_that_is_a_4_tuple() -> Registry {
    my_struct(vec![field("one", Format::Tuple(vec![Format::Str, Format::I32, Format::U16, Format::F32]))])
}

fn enum_with_unit_variants() -> Registry {
    let variants = vec![
        variant_doc("Variant1", VariantFormat::Unit, &["variant one"]),
        variant_doc("Variant2", VariantFormat::Unit, &["variant two"]),
        variant_doc("Variant3", VariantFormat::Unit, &["variant three"]),
    ];
    registry(vec![("EnumWithUnitVariants", enum_of(variants, doc(&["line one", "line two"])))])
}

fn enum_with_unit_struct_variants() -> Registry {
    my_enum(vec![variant("Variant1", VariantFormat::Unit)])
}

fn enum_with_1_tuple_variants() -> Registry {
    my_enum(vec![variant("Variant1", VariantFormat::NewType(b(Format::Str)))])
}

fn enum_with_newtype_variants() -> Registry {
    my_enum(vec![
        variant("Variant1", VariantFormat::NewType(b(Format::Str))),
        variant("Variant2", VariantFormat::NewType(b(Format::I32))),
    ])
}

fn enum_with_tuple_variants() -> Registry {
    my_enum(vec![
        variant("Variant1", VariantFormat::Tuple(vec![Format::Str, Format::I32])),
        variant("Variant2", VariantFormat::Tuple(vec![Format::Bool, Format::F64, Format::U8])),
    ])
}

fn enum_with_struct_variants() -> Registry {
    my_enum(vec![variant(
        "Variant1",
        VariantFormat::Struct(vec![field("field1", Format::Str), field("field2", Format::I32)]),
    )])
}

fn enum_with_mixed_variants() -> Registry {
    my_enum(vec![
        variant("Unit", VariantFormat::Unit),
        variant("NewType", VariantFormat::NewType(b(Format::Str))),
        variant("Tuple", VariantFormat::Tuple(vec![Format::Str, Format::I32])),
        variant("Struct", VariantFormat::Struct(vec![field("field", Format::Bool)])),
    ])
}

fn struct_with_vec_field() -> Registry {
    my_struct(vec![
        field("items", seq_of(Format::Str)),
        field("numbers", seq_of(Format::I32)),
        field("nested_items", seq_of(seq_of(Format::Str))),
    ])
}

fn struct_with_option_field() -> Registry {
    my_struct(vec![
        field("optional_string", option_of(Format::Str)),
        field("optional_number", option_of(Format::I32)),
        field("optional_bool", option_of(Format::Bool)),
    ])
}

fn struct_with_hashmap_field() -> Registry {
    my_struct(vec![
        field("string_to_int", map_of(Format::Str, Format::I32)),
        field("int_to_bool", map_of(Format::I32, Format::Bool)),
    ])
}

fn struct_with_nested_generics() -> Registry {
    my_struct(vec![
        field("optional_list", option_of(seq_of(Format::Str))),
        field("list_of_optionals", seq_of(option_of(Format::I32))),
        field("map_to_list", map_of(Format::Str, seq_of(Format::Bool))),
        field("optional_map", option_of(map_of(Format::Str, Format::I32))),
        field("complex", seq_of(option_of(map_of(Format::Str, seq_of(Format::Bool))))),
    ])
}

fn struct_with_array_field() -> Registry {
    my_struct(vec![
        field("fixed_array", array_of(Format::I32, 5)),
        field("byte_array", array_of(Format::U8, 32)),
        field("string_array", array_of(Format::Str, 3)),
    ])
}

fn struct_with_btreemap_field() -> Registry {
    struct_with_hashmap_field()
}

fn struct_with_hashset_field() -> Registry {
    my_struct(vec![
        field("string_set", Format::SetOf(b(Format::Str))),
        field("int_set", Format::SetOf(b(Format::I32))),
    ])
}

fn struct_with_btreeset_field() -> Registry {
    struct_with_hashset_field()
}

fn struct_with_box_field() -> Registry {
    my_struct(vec![field("boxed_string", Format::Str), field("boxed_int", Format::I32)])
}

fn struct_with_rc_field() -> Registry {
    my_struct(vec![field("rc_string", Format::Str), field("rc_int", Format::I32)])
}

fn struct_with_arc_field() -> Registry {
    my_struct(vec![field("arc_string", Format::Str), field("arc_int", Format::I32)])
}

fn struct_with_mixed_collections_and_pointers() -> Registry {
    my_struct(vec![
        field("vec_of_sets", seq_of(Format::SetOf(b(Format::Str)))),
        field("optional_btree", option_of(map_of(Format::Str, Format::I32))),
        field("boxed_vec", seq_of(Format::Str)),
        field("arc_option", option_of(Format::Str)),
        field("array_of_boxes", array_of(Format::I32, 3)),
    ])
}

fn struct_with_bytes_field() -> Registry {
    my_struct(vec![field("data", Format::Bytes), field("name", Format::Str), field("header", Format::Bytes)])
}

fn struct_with_bytes_field_and_slice() -> Registry {
    my_struct(vec![
        field("data", Format::Bytes),
        field("name", Format::Str),
        field("header", Format::Bytes),
        field("optional_bytes", option_of(seq_of(Format::U8))),
    ])
}

#[test]
fn emitter_tests_unit_struct_1() {
    let registry = unit_struct_1();
    assert_eq!(
        emit(&registry, Encoding::Plain),
        r#"/// line 1
/// line 2
data object UnitStruct
"#
    );
    assert_eq!(
        emit(&registry, Encoding::Json),
        r#"/// line 1
/// line 2
@Serializable
@SerialName("UnitStruct")
data object UnitStruct
"#
    );
}

#[test]
fn emitter_tests_unit_struct_2() {
    let registry = unit_struct_2();
    assert_eq!(
        emit(&registry, Encoding::Plain),
        r#"/// line 1
/// line 2
data object UnitStruct
"#
    );
    assert_eq!(
        emit(&registry, Encoding::Json),
        r#"/// line 1
/// line 2
@Serializable
@SerialName("UnitStruct")
data object UnitStruct
"#
    );
}

#[test]
fn emitter_tests_tuple_struct() {
    let registry = tuple_struct();
    assert_eq!(
        emit(&registry, Encoding::Plain),
        r#"/// line 1
/// line 2
data class TupleStruct(
    val field_0: String,
    val field_1: Int,
)
"#
    );
    assert_eq!(
        emit(&registry, Encoding::Json),
        r#"/// line 1
/// line 2
@Serializable
@SerialName("TupleStruct")
data class TupleStruct(
    val field_0: String,
    val field_1: Int,
)
"#
    );
}

#[test]
fn emitter_tests_struct_with_fields_of_primitive_types() {
    let registry = struct_with_fields_of_primitive_types();
    assert_eq!(
        emit(&registry, Encoding::Plain),
        r#"/// line 1
/// line 2
data class StructWithFields(
    /// unit type
    val unit: Unit,
    /// boolean
    val bool: Boolean,
    val i8: Byte,
    val i16: Short,
    val i32: Int,
    val i64: Long,
    val i128: BigInteger,
    val u8: UByte,
    val u16: UShort,
    val u32: UInt,
    val u64: ULong,
    val u128: BigInteger,
    val f32: Float,
    val f64: Double,
    val char: String,
    val string: String,
)
"#
    );
    assert_eq!(
        emit(&registry, Encoding::Json),
        r#"/// line 1
/// line 2
@Serializable
@SerialName("StructWithFields")
data class StructWithFields(
    /// unit type
    val unit: Unit,
    /// boolean
    val bool: Boolean,
    val i8: Byte,
    val i16: Short,
    val i32: Int,
    val i64: Long,
    val i128: BigInteger,
    val u8: UByte,
    val u16: UShort,
    val u32: UInt,
    val u64: ULong,
    val u128: BigInteger,
    val f32: Float,
    val f64: Double,
    val char: String,
    val string: String,
)
"#
    );
}

#[test]
fn emitter_tests_struct_with_field_that_is_a_2_tuple() {
    let registry = struct_with_field_that_is_a_2_tuple();
    assert_eq!(
        emit(&registry, Encoding::Plain),
        r#"data class MyStruct(
    val one: Pair<String, Int>,
)
"#
    );
    assert_eq!(
        emit(&registry, Encoding::Json),
        r#"@Serializable
@SerialName("MyStruct")
data class MyStruct(
    val one: Pair<String, Int>,
)
"#
    );
}

#[test]
fn emitter_tests_struct_with_field_that_is_a_3_tuple() {
    let registry = struct_with_field_that_is_a_3_tuple();
    assert_eq!(
        emit(&registry, Encoding::Plain),
        r#"data class MyStruct(
    val one: Triple<String, Int, UShort>,
)
"#
    );
    assert_eq!(
        emit(&registry, Encoding::Json),
        r#"@Serializable
@SerialName("MyStruct")
data class MyStruct(
    val one: Triple<String, Int, UShort>,
)
"#
    );
}

#[test]
fn emitter_tests_struct_with_field_that_is_a_4_tuple() {
    let registry = struct_with_field_that_is_a_4_tuple();
    assert_eq!(
        emit(&registry, Encoding::Plain),
        r#"data class MyStruct(
    val one: NTuple4<String, Int, UShort, Float>,
)
"#
    );
    assert_eq!(
        emit(&registry, Encoding::Json),
        r#"@Serializable
@SerialName("MyStruct")
data class MyStruct(
    val one: NTuple4<String, Int, UShort, Float>,
)
"#
    );
}

#[test]
fn emitter_tests_enum_with_unit_variants() {
    let registry = enum_with_unit_variants();
    assert_eq!(
        emit(&registry, Encoding::Plain),
        r#"/// line one
/// line two
enum class EnumWithUnitVariants {
    /// variant one
    VARIANT1,
    /// variant two
    VARIANT2,
    /// variant three
    VARIANT3;

}
"#
    );
    assert_eq!(
        emit(&registry, Encoding::Json),
        r#"/// line one
/// line two
@Serializable
@SerialName("EnumWithUnitVariants")
enum class EnumWithUnitVariants {
    /// variant one
    @SerialName("Variant1") VARIANT1,
    /// variant two
    @SerialName("Variant2") VARIANT2,
    /// variant three
    @SerialName("Variant3") VARIANT3;

    val serialName: String
        get() = javaClass.getDeclaredField(name).getAnnotation(SerialName::class.java)!!.value
}
"#
    );
}

#[test]
fn emitter_tests_enum_with_unit_struct_variants() {
    let registry = enum_with_unit_struct_variants();
    assert_eq!(
        emit(&registry, Encoding::Plain),
        r#"enum class MyEnum {
    VARIANT1;

}
"#
    );
    assert_eq!(
        emit(&registry, Encoding::Json),
        r#"@Serializable
@SerialName("MyEnum")
enum class MyEnum {
    @SerialName("Variant1") VARIANT1;

    val serialName: String
        get() = javaClass.getDeclaredField(name).getAnnotation(SerialName::class.java)!!.value
}
"#
    );
}

#[test]
fn emitter_tests_enum_with_1_tuple_variants() {
    let registry = enum_with_1_tuple_variants();
    assert_eq!(
        emit(&registry, Encoding::Plain),
        r#"sealed interface MyEnum {
    data class Variant1(
        val value: String,
    ) : MyEnum
}
"#
    );
    assert_eq!(
        emit(&registry, Encoding::Json),
        r#"@Serializable
@SerialName("MyEnum")
sealed interface MyEnum {
    @Serializable
    @SerialName("Variant1")
    data class Variant1(
        val value: String,
    ) : MyEnum
}
"#
    );
}

#[test]
fn emitter_tests_enum_with_newtype_variants() {
    let registry = enum_with_newtype_variants();
    assert_eq!(
        emit(&registry, Encoding::Plain),
        r#"sealed interface MyEnum {
    data class Variant1(
        val value: String,
    ) : MyEnum

    data class Variant2(
        val value: Int,
    ) : MyEnum
}
"#
    );
    assert_eq!(
        emit(&registry, Encoding::Json),
        r#"@Serializable
@SerialName("MyEnum")
sealed interface MyEnum {
    @Serializable
    @SerialName("Variant1")
    data class Variant1(
        val value: String,
    ) : MyEnum

    @Serializable
    @SerialName("Variant2")
    data class Variant2(
        val value: Int,
    ) : MyEnum
}
"#
    );
}

#[test]
fn emitter_tests_enum_with_tuple_variants() {
    let registry = enum_with_tuple_variants();
    assert_eq!(
        emit(&registry, Encoding::Plain),
        r#"sealed interface MyEnum {
    data class Variant1(
        val field_0: String,
        val field_1: Int,
    ) : MyEnum

    data class Variant2(
        val field_0: Boolean,
        val field_1: Double,
        val field_2: UByte,
    ) : MyEnum
}
"#
    );
    assert_eq!(
        emit(&registry, Encoding::Json),
        r#"@Serializable
@SerialName("MyEnum")
sealed interface MyEnum {
    @Serializable
    @SerialName("Variant1")
    data class Variant1(
        val field_0: String,
        val field_1: Int,
    ) : MyEnum

    @Serializable
    @SerialName("Variant2")
    data class Variant2(
        val field_0: Boolean,
        val field_1: Double,
        val field_2: UByte,
    ) : MyEnum
}
"#
    );
}

#[test]
fn emitter_tests_enum_with_struct_variants() {
    let registry = enum_with_struct_variants();
    assert_eq!(
        emit(&registry, Encoding::Plain),
        r#"sealed interface MyEnum {
    data class Variant1(
        val field1: String,
        val field2: Int,
    ) : MyEnum
}
"#
    );
    assert_eq!(
        emit(&registry, Encoding::Json),
        r#"@Serializable
@SerialName("MyEnum")
sealed interface MyEnum {
    @Serializable
    @SerialName("Variant1")
    data class Variant1(
        val field1: String,
        val field2: Int,
    ) : MyEnum
}
"#
    );
}

#[test]
fn emitter_tests_enum_with_mixed_variants() {
    let registry = enum_with_mixed_variants();
    assert_eq!(
        emit(&registry, Encoding::Plain),
        r#"sealed interface MyEnum {
    data object Unit: MyEnum

    data class NewType(
        val value: String,
    ) : MyEnum

    data class Tuple(
        val field_0: String,
        val field_1: Int,
    ) : MyEnum

    data class Struct(
        val field: Boolean,
    ) : MyEnum
}
"#
    );
    assert_eq!(
        emit(&registry, Encoding::Json),
        r#"@Serializable
@SerialName("MyEnum")
sealed interface MyEnum {
    @Serializable
    @SerialName("Unit")
    data object Unit: MyEnum

    @Serializable
    @SerialName("NewType")
    data class NewType(
        val value: String,
    ) : MyEnum

    @Serializable
    @SerialName("Tuple")
    data class Tuple(
        val field_0: String,
        val field_1: Int,
    ) : MyEnum

    @Serializable
    @SerialName("Struct")
    data class Struct(
        val field: Boolean,
    ) : MyEnum
}
"#
    );
}

#[test]
fn emitter_tests_struct_with_vec_field() {
    let registry = struct_with_vec_field();
    assert_eq!(
        emit(&registry, Encoding::Plain),
        r#"data class MyStruct(
    val items: List<String>,
    val numbers: List<Int>,
    val nested_items: List<List<String>>,
)
"#
    );
    assert_eq!(
        emit(&registry, Encoding::Json),
        r#"@Serializable
@SerialName("MyStruct")
data class MyStruct(
    val items: List<String>,
    val numbers: List<Int>,
    val nested_items: List<List<String>>,
)
"#
    );
}

#[test]
fn emitter_tests_struct_with_option_field() {
    let registry = struct_with_option_field();
    assert_eq!(
        emit(&registry, Encoding::Plain),
        r#"data class MyStruct(
    val optional_string: String? = null,
    val optional_number: Int? = null,
    val optional_bool: Boolean? = null,
)
"#
    );
    assert_eq!(
        emit(&registry, Encoding::Json),
        r#"@Serializable
@SerialName("MyStruct")
data class MyStruct(
    val optional_string: String? = null,
    val optional_number: Int? = null,
    val optional_bool: Boolean? = null,
)
"#
    );
}

#[test]
fn emitter_tests_struct_with_hashmap_field() {
    let registry = struct_with_hashmap_field();
    assert_eq!(
        emit(&registry, Encoding::Plain),
        r#"data class MyStruct(
    val string_to_int: Map<String, Int>,
    val int_to_bool: Map<Int, Boolean>,
)
"#
    );
    assert_eq!(
        emit(&registry, Encoding::Json),
        r#"@Serializable
@SerialName("MyStruct")
data class MyStruct(
    val string_to_int: Map<String, Int>,
    val int_to_bool: Map<Int, Boolean>,
)
"#
    );
}

#[test]
fn emitter_tests_struct_with_nested_generics() {
    let registry = struct_with_nested_generics();
    assert_eq!(
        emit(&registry, Encoding::Plain),
        r#"data class MyStruct(
    val optional_list: List<String>? = null,
    val list_of_optionals: List<Int?>,
    val map_to_list: Map<String, List<Boolean>>,
    val optional_map: Map<String, Int>? = null,
    val complex: List<Map<String, List<Boolean>>?>,
)
"#
    );
    assert_eq!(
        emit(&registry, Encoding::Json),
        r#"@Serializable
@SerialName("MyStruct")
data class MyStruct(
    val optional_list: List<String>? = null,
    val list_of_optionals: List<Int?>,
    val map_to_list: Map<String, List<Boolean>>,
    val optional_map: Map<String, Int>? = null,
    val complex: List<Map<String, List<Boolean>>?>,
)
"#
    );
}

#[test]
fn emitter_tests_struct_with_array_field() {
    let registry = struct_with_array_field();
    assert_eq!(
        emit(&registry, Encoding::Plain),
        r#"data class MyStruct(
    val fixed_array: List<Int>,
    val byte_array: List<UByte>,
    val string_array: List<String>,
)
"#
    );
    assert_eq!(
        emit(&registry, Encoding::Json),
        r#"@Serializable
@SerialName("MyStruct")
data class MyStruct(
    val fixed_array: List<Int>,
    val byte_array: List<UByte>,
    val string_array: List<String>,
)
"#
    );
}

#[test]
fn emitter_tests_struct_with_btreemap_field() {
    let registry = struct_with_btreemap_field();
    assert_eq!(
        emit(&registry, Encoding::Plain),
        r#"data class MyStruct(
    val string_to_int: Map<String, Int>,
    val int_to_bool: Map<Int, Boolean>,
)
"#
    );
    assert_eq!(
        emit(&registry, Encoding::Json),
        r#"@Serializable
@SerialName("MyStruct")
data class MyStruct(
    val string_to_int: Map<String, Int>,
    val int_to_bool: Map<Int, Boolean>,
)
"#
    );
}

#[test]
fn emitter_tests_struct_with_hashset_field() {
    let registry = struct_with_hashset_field();
    assert_eq!(
        emit(&registry, Encoding::Plain),
        r#"data class MyStruct(
    val string_set: Set<String>,
    val int_set: Set<Int>,
)
"#
    );
    assert_eq!(
        emit(&registry, Encoding::Json),
        r#"@Serializable
@SerialName("MyStruct")
data class MyStruct(
    val string_set: Set<String>,
    val int_set: Set<Int>,
)
"#
    );
}

#[test]
fn emitter_tests_struct_with_btreeset_field() {
    let registry = struct_with_btreeset_field();
    assert_eq!(
        emit(&registry, Encoding::Plain),
        r#"data class MyStruct(
    val string_set: Set<String>,
    val int_set: Set<Int>,
)
"#
    );
    assert_eq!(
        emit(&registry, Encoding::Json),
        r#"@Serializable
@SerialName("MyStruct")
data class MyStruct(
    val string_set: Set<String>,
    val int_set: Set<Int>,
)
"#
    );
}

#[test]
fn emitter_tests_struct_with_box_field() {
    let registry = struct_with_box_field();
    assert_eq!(
        emit(&registry, Encoding::Plain),
        r#"data class MyStruct(
    val boxed_string: String,
    val boxed_int: Int,
)
"#
    );
    assert_eq!(
        emit(&registry, Encoding::Json),
        r#"@Serializable
@SerialName("MyStruct")
data class MyStruct(
    val boxed_string: String,
    val boxed_int: Int,
)
"#
    );
}

#[test]
fn emitter_tests_struct_with_rc_field() {
    let registry = struct_with_rc_field();
    assert_eq!(
        emit(&registry, Encoding::Plain),
        r#"data class MyStruct(
    val rc_string: String,
    val rc_int: Int,
)
"#
    );
    assert_eq!(
        emit(&registry, Encoding::Json),
        r#"@Serializable
@SerialName("MyStruct")
data class MyStruct(
    val rc_string: String,
    val rc_int: Int,
)
"#
    );
}

#[test]
fn emitter_tests_struct_with_arc_field() {
    let registry = struct_with_arc_field();
    assert_eq!(
        emit(&registry, Encoding::Plain),
        r#"data class MyStruct(
    val arc_string: String,
    val arc_int: Int,
)
"#
    );
    assert_eq!(
        emit(&registry, Encoding::Json),
        r#"@Serializable
@SerialName("MyStruct")
data class MyStruct(
    val arc_string: String,
    val arc_int: Int,
)
"#
    );
}

#[test]
fn emitter_tests_struct_with_mixed_collections_and_pointers() {
    let registry = struct_with_mixed_collections_and_pointers();
    assert_eq!(
        emit(&registry, Encoding::Plain),
        r#"data class MyStruct(
    val vec_of_sets: List<Set<String>>,
    val optional_btree: Map<String, Int>? = null,
    val boxed_vec: List<String>,
    val arc_option: String? = null,
    val array_of_boxes: List<Int>,
)
"#
    );
    assert_eq!(
        emit(&registry, Encoding::Json),
        r#"@Serializable
@SerialName("MyStruct")
data class MyStruct(
    val vec_of_sets: List<Set<String>>,
    val optional_btree: Map<String, Int>? = null,
    val boxed_vec: List<String>,
    val arc_option: String? = null,
    val array_of_boxes: List<Int>,
)
"#
    );
}

#[test]
fn emitter_tests_struct_with_bytes_field() {
    let registry = struct_with_bytes_field();
    assert_eq!(
        emit(&registry, Encoding::Plain),
        r#"data class MyStruct(
    val data: ByteArray,
    val name: String,
    val header: ByteArray,
)
"#
    );
    assert_eq!(
        emit(&registry, Encoding::Json),
        r#"@Serializable
@SerialName("MyStruct")
data class MyStruct(
    val data: ByteArray,
    val name: String,
    val header: ByteArray,
)
"#
    );
}

#[test]
fn emitter_tests_struct_with_bytes_field_and_slice() {
    let registry = struct_with_bytes_field_and_slice();
    assert_eq!(
        emit(&registry, Encoding::Plain),
        r#"data class MyStruct(
    val data: ByteArray,
    val name: String,
    val header: ByteArray,
    val optional_bytes: List<UByte>? = null,
)
"#
    );
    assert_eq!(
        emit(&registry, Encoding::Json),
        r#"@Serializable
@SerialName("MyStruct")
data class MyStruct(
    val data: ByteArray,
    val name: String,
    val header: ByteArray,
    val optional_bytes: List<UByte>? = null,
)
"#
    );
}

#[test]
fn emitter_tests_newtype_struct() {
    let registry = registry(vec![("NewType", ContainerFormat::NewTypeStruct(b(Format::Str), doc(&["line 1", "line 2"])))]);
    assert_eq!(
        emit(&registry, Encoding::Plain),
        r#"/// line 1
/// line 2
typealias NewType = String
"#
    );
    assert_eq!(
        emit(&registry, Encoding::Json),
        r#"/// line 1
/// line 2
typealias NewType = String
"#
    );
}

fn outer_with_user_types() -> Registry {
    let named_type = |n: &str| Format::TypeName(QualifiedTypeName::root(n.to_string()));
    registry(vec![
        ("Inner1", ContainerFormat::Struct(vec![field("field1", Format::Str)], Doc::new())),
        ("Inner2", ContainerFormat::NewTypeStruct(b(Format::Str), Doc::new())),
        ("Inner3", ContainerFormat::TupleStruct(vec![Format::Str, Format::I32], Doc::new())),
        (
            "Outer",
            ContainerFormat::Struct(
                vec![field("one", named_type("Inner1")), field("two", named_type("Inner2")), field("three", named_type("Inner3"))],
                Doc::new(),
            ),
        ),
    ])
}

#[test]
fn emitter_tests_struct_with_fields_of_user_types() {
    let registry = outer_with_user_types();
    assert_eq!(
        emit(&registry, Encoding::Plain),
        r#"data class Inner1(
    val field1: String,
)

typealias Inner2 = String

data class Inner3(
    val field_0: String,
    val field_1: Int,
)

data class Outer(
    val one: Inner1,
    val two: Inner2,
    val three: Inner3,
)
"#
    );
    assert_eq!(
        emit(&registry, Encoding::Json),
        r#"@Serializable
@SerialName("Inner1")
data class Inner1(
    val field1: String,
)

typealias Inner2 = String

@Serializable
@SerialName("Inner3")
data class Inner3(
    val field_0: String,
    val field_1: Int,
)

@Serializable
@SerialName("Outer")
data class Outer(
    val one: Inner1,
    val two: Inner2,
    val three: Inner3,
)
"#
    );
}

#[test]
fn kotlin_bincode_newtype_is_a_data_class() {
    let registry = registry(vec![("NewType", ContainerFormat::NewTypeStruct(b(Format::Str), Doc::new()))]);
    let out = emit(&registry, Encoding::Bincode);
    assert!(out.starts_with("data class NewType(\n    val value: String,\n)"));
    assert!(!out.contains("typealias"));
}
