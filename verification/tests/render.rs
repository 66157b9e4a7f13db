use apigen::c_abi::{join_lines, replace_all, write_c_commments};
use apigen::{ApiDef, ApiParser, ArrayType, Const, Function, TypeModifier, Variable, VariableType};

fn var(name: &str, vtype: VariableType, vtype_name: &str) -> Variable {
    Variable { name: name.to_string(), vtype, vtype_name: vtype_name.to_string(), ..Variable::default() }
}

fn with_modifier(mut v: Variable, m: TypeModifier) -> Variable {
    v.type_modifier = m;
    v
}

fn with_array(mut v: Variable, a: ArrayType) -> Variable {
    v.array = Some(a);
    v
}

fn sized(size: &str) -> ArrayType {
    ArrayType::SizedArray(size.to_string())
}

#[test]
fn c_spelling_of_primitive_types() {
    let cases = [
        ("f32", "float"),
        ("f64", "double"),
        ("bool", "bool"),
        ("i32", "int"),
        ("void", "void"),
        ("i8", "int8_t"),
        ("u8", "uint8_t"),
        ("i16", "int16_t"),
        ("u16", "uint16_t"),
        ("u32", "uint32_t"),
        ("i64", "int64_t"),
        ("u64", "uint64_t"),
        ("usize", "uintsize_t"),
        ("x", "int_t"),
        ("", "int_t"),
        ("u", "uint_t"),
        ("üü", "intü_t"),
    ];
    for (name, spelling) in cases {
        assert_eq!(var("v", VariableType::Primitive, name).get_c_primitive_type(), spelling);
    }
}

#[test]
fn c_type_by_classification() {
    assert_eq!(var("v", VariableType::NoType, "T").get_c_variable("Own", "FL"), "void");
    assert_eq!(var("v", VariableType::SelfType, "").get_c_variable("Own", "FL"), "struct FLOwn");
    assert_eq!(var("v", VariableType::Regular, "T").get_c_variable("Own", "FL"), "FLT");
    assert_eq!(var("v", VariableType::Enum, "E").get_c_variable("Own", "FL"), "FLE");
    assert_eq!(var("v", VariableType::Str, "String").get_c_variable("Own", "FL"), "const char*");
    assert_eq!(var("v", VariableType::Primitive, "u32").get_c_variable("Own", "FL"), "uint32_t");
    assert_eq!(var("v", VariableType::Regular, "T").get_c_variable("", ""), "T");
}

#[test]
fn c_type_by_modifier() {
    let t = || var("v", VariableType::Regular, "T");
    assert_eq!(with_modifier(t(), TypeModifier::NoModifier).get_c_variable("", "P"), "PT");
    assert_eq!(with_modifier(t(), TypeModifier::MutPointer).get_c_variable("", "P"), "PT*");
    assert_eq!(with_modifier(t(), TypeModifier::ConstPointer).get_c_variable("", "P"), "const PT*");
    assert_eq!(with_modifier(t(), TypeModifier::Reference).get_c_variable("", "P"), "const PT*");
    let s = with_modifier(var("v", VariableType::Str, "String"), TypeModifier::Reference);
    assert_eq!(s.get_c_variable("", "P"), "const const char**");
    let this = with_modifier(var("self", VariableType::SelfType, ""), TypeModifier::MutPointer);
    assert_eq!(this.get_c_variable("Font", "P"), "struct PFont*");
}

#[test]
fn c_struct_field_by_array_shape() {
    let count = var("count", VariableType::Primitive, "u32");
    assert_eq!(count.get_c_struct_variable("FL"), "    uint32_t count;");
    assert_eq!(count.get_c_struct_fields("FL"), vec!["uint32_t count;"]);
    let matrix = with_array(var("matrix", VariableType::Primitive, "f32"), sized("4 * 4"));
    assert_eq!(matrix.get_c_struct_variable("FL"), "    float matrix[4 * 4];");
    let this = var("me", VariableType::SelfType, "");
    assert_eq!(this.get_c_struct_variable("FL"), "    struct FL me;");
}

#[test]
fn unsized_array_field_is_pointer_and_size() {
    let items = with_array(var("items", VariableType::Regular, "Item"), ArrayType::Unsized);
    assert_eq!(items.get_c_struct_fields("FL"), vec!["FLItem* items;", "uint64_t items_size;"]);
    assert_eq!(items.get_c_struct_variable("FL"), "    FLItem* items;\n    uint64_t items_size;");
    let text = with_array(
        with_modifier(var("names", VariableType::Str, "String"), TypeModifier::ConstPointer),
        ArrayType::Unsized,
    );
    assert_eq!(text.get_c_struct_fields(""), vec!["const const char*** names;", "uint64_t names_size;"]);
    let blank = with_array(Variable::default(), ArrayType::Unsized);
    assert_eq!(blank.get_c_struct_variable("X"), "    void* ;\n    uint64_t _size;");
}

fn function() -> Function {
    let mut f = Function::default();
    f.name = "draw".to_string();
    f.function_args = vec![
        var("self", VariableType::SelfType, ""),
        var("text", VariableType::Str, "String"),
        with_array(var("data", VariableType::Primitive, "u8"), ArrayType::Unsized),
        with_array(var("m", VariableType::Primitive, "f32"), sized("4")),
        with_modifier(var("n", VariableType::Primitive, "i32"), TypeModifier::MutPointer),
        var("kind", VariableType::Enum, "Kind"),
        var("va_args", VariableType::Regular, "VA_ARGS"),
    ];
    f
}

#[test]
fn c_parameters_one_by_one() {
    assert_eq!(
        function().get_c_separated_arguments("Font", "FL"),
        vec![
            "struct FLFont self",
            "const char* text",
            "uint8_t* data",
            "uint64_t data_size",
            "float m[4]",
            "int* n",
            "FLKind kind",
            "...",
        ]
    );
    assert!(Function::default().get_c_separated_arguments("Font", "FL").is_empty());
}

#[test]
fn ellipsis_needs_name_and_type() {
    let mut f = Function::default();
    f.function_args = vec![
        var("va_args", VariableType::Regular, "Other"),
        var("rest", VariableType::Regular, "VA_ARGS"),
        var("va_args", VariableType::Regular, "VA_ARGS"),
        with_array(var("va_args", VariableType::Regular, "VA_ARGS"), ArrayType::Unsized),
        var("va_args", VariableType::Str, "VA_ARGS"),
    ];
    assert_eq!(
        f.get_c_separated_arguments("S", "P"),
        vec![
            "POther va_args",
            "PVA_ARGS rest",
            "...",
            "PVA_ARGS* va_args",
            "uint64_t va_args_size",
            "const char* va_args",
        ]
    );
}

#[test]
fn string_argument_ignores_its_array() {
    let mut f = Function::default();
    f.function_args = vec![with_array(var("names", VariableType::Str, "String"), ArrayType::Unsized)];
    assert_eq!(f.get_c_separated_arguments("S", "P"), vec!["const char* names"]);
    assert_eq!(f.get_c_arg_names("s"), "names, names_size");
}

#[test]
fn c_parameters_joined() {
    assert_eq!(
        function().get_c_arguments("Font", "FL"),
        "struct FLFont self, const char* text, uint8_t* data, uint64_t data_size, float m[4], int* n, FLKind kind, ..."
    );
    assert_eq!(Function::default().get_c_arguments("Font", "FL"), "");
    let mut one = Function::default();
    one.function_args = vec![var("a", VariableType::Primitive, "bool")];
    assert_eq!(one.get_c_arguments("Font", "FL"), "bool a");
}

#[test]
fn c_argument_names() {
    assert_eq!(function().get_c_arg_names("self_c"), "self_c, text, data, data_size, m, n, kind, va_args");
    assert_eq!(Function::default().get_c_arg_names("self_c"), "");
    let mut f = Function::default();
    f.function_args = vec![with_array(var("self", VariableType::SelfType, ""), sized("2"))];
    assert_eq!(f.get_c_arg_names("self_c"), "self");
}

#[test]
fn c_return_type() {
    let mut f = Function::default();
    assert_eq!(f.get_c_return_value("FL"), "void");
    f.return_val = Some(with_modifier(var("", VariableType::Regular, "Font"), TypeModifier::Reference));
    assert_eq!(f.get_c_return_value("FL"), "const FLFont*");
    f.return_val = Some(var("", VariableType::SelfType, ""));
    assert_eq!(f.get_c_return_value("FL"), "struct FL");
}

#[test]
fn ffi_spelling_of_primitive_types() {
    assert_eq!(var("v", VariableType::Primitive, "void").get_primitive_type(), "c_void");
    assert_eq!(var("v", VariableType::Primitive, "u32").get_primitive_type(), "u32");
    assert_eq!(var("v", VariableType::Primitive, "").get_primitive_type(), "");
}

#[test]
fn ffi_type_by_classification_and_modifier() {
    assert_eq!(var("v", VariableType::NoType, "T").get_ffi_type("Own"), "c_void");
    assert_eq!(var("v", VariableType::SelfType, "").get_ffi_type("Own"), "*mut Own");
    assert_eq!(var("v", VariableType::Regular, "T").get_ffi_type("Own"), "T");
    assert_eq!(var("v", VariableType::Enum, "E").get_ffi_type("Own"), "E");
    assert_eq!(var("v", VariableType::Str, "String").get_ffi_type("Own"), "*const c_char");
    assert_eq!(var("v", VariableType::Primitive, "void").get_ffi_type("Own"), "c_void");
    assert_eq!(var("v", VariableType::Primitive, "f64").get_ffi_type("Own"), "f64");
    let t = || var("v", VariableType::Regular, "T");
    assert_eq!(with_modifier(t(), TypeModifier::MutPointer).get_ffi_type(""), "*mut T");
    assert_eq!(with_modifier(t(), TypeModifier::ConstPointer).get_ffi_type(""), "*const T");
    assert_eq!(with_modifier(t(), TypeModifier::Reference).get_ffi_type(""), "*const T");
    let this = with_modifier(var("self", VariableType::SelfType, ""), TypeModifier::ConstPointer);
    assert_eq!(this.get_ffi_type("Own"), "*const *mut Own");
}

#[test]
fn ffi_type_of_arrays() {
    let data = with_array(
        with_modifier(var("data", VariableType::Primitive, "u8"), TypeModifier::MutPointer),
        ArrayType::Unsized,
    );
    assert_eq!(data.get_ffi_type("Own"), "*const u8, data_size: u64");
    let m = with_array(var("m", VariableType::Primitive, "f32"), sized("16"));
    assert_eq!(m.get_ffi_type("Own"), "[f32; 16]");
    let s = with_array(var("names", VariableType::Str, "String"), ArrayType::Unsized);
    assert_eq!(s.get_ffi_type("Own"), "*const *const c_char, names_size: u64");
}

fn constant(name: &str, value: &str) -> Const {
    Const { doc_comments: Vec::new(), name: name.to_string(), value: value.to_string() }
}

#[test]
fn manual_block_with_prefix() {
    let mut def = ApiDef::default();
    def.consts = vec![
        constant("OTHER", "\"{CPrefix}\""),
        constant("_MANUAL_C", "\"typedef {CPrefix}Id {CPrefix}Key;\n{CPrefix\""),
        constant("_MANUAL_C", "0x123"),
        constant("_MANUAL_C", "x"),
        constant("_MANUAL_C", ""),
        constant("_MANUAL_C", "{CPrefix}"),
    ];
    assert_eq!(def.write_c_manual("FL"), "\ntypedef FLId FLKey;\n{CPrefix\n\nx12\n\n\n\n\n\n\n");
    assert_eq!(def.write_c_manual(""), "\ntypedef Id Key;\n{CPrefix\n\nx12\n\n\n\n\n\n\n");
    assert_eq!(ApiDef::default().write_c_manual("FL"), "");
}

#[test]
fn manual_block_from_text() {
    let def = ApiParser::parse_string("const _MANUAL_C = \"struct {CPrefix}Ctx;\"", "m.def").unwrap();
    assert_eq!(def.write_c_manual("Fl"), "\nstruct FlCtx;\n");
}

#[test]
fn replacing_goes_left_to_right() {
    assert_eq!(replace_all("aaa", "aa", "b"), "ba");
    assert_eq!(replace_all("abcabc", "bc", ""), "aa");
    assert_eq!(replace_all("abc", "", "x"), "abc");
    assert_eq!(replace_all("", "a", "x"), "");
    assert_eq!(replace_all("a", "abc", "x"), "a");
    assert_eq!(replace_all("xay", "a", "aa"), "xaay");
    assert_eq!(replace_all("é{é}", "{é}", "ü"), "éü");
    assert_eq!(replace_all("abab", "ab", "ab"), "abab");
}

#[test]
fn comments_with_indentation() {
    let comments = vec!["first".to_string(), "".to_string(), "third".to_string()];
    assert_eq!(write_c_commments(&comments, 0), "// first\n// \n// third\n");
    assert_eq!(write_c_commments(&comments, 4), "    // first\n    // \n    // third\n");
    assert_eq!(write_c_commments(&Vec::new(), 4), "");
}

#[test]
fn joining_lines() {
    let parts = vec!["a".to_string(), "".to_string(), "c".to_string()];
    assert_eq!(join_lines(&parts, ", "), "a, , c");
    assert_eq!(join_lines(&parts, ""), "ac");
    assert_eq!(join_lines(&Vec::new(), ", "), "");
}

#[test]
fn replacing_as_the_standard_library_replaces() {
    let texts = ["", "a", "aaa", "aaaa", "abcabcab", "{CPrefix}{CPrefix", "x{CPrefix}y{CPrefix}", "ééé", "abab"];
    let patterns = ["a", "aa", "ab", "abc", "{CPrefix}", "é", "b", "abcabcabc"];
    for text in texts {
        for pattern in patterns {
            for to in ["", "a", "FL", "é"] {
                assert_eq!(replace_all(text, pattern, to), text.replace(pattern, to));
            }
        }
    }
}
