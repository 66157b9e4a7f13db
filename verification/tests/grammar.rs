use apigen::error::ApigenError;
use apigen::grammar::{Expected, Failure};
use apigen::parser::parse;
use apigen::text::to_chars;
use apigen::tree::{Node, Rule};
use apigen::{ApiParser, ArrayType, FunctionType, TypeModifier, VariableType};

fn tree(text: &str) -> Vec<Node> {
    parse(&to_chars(text)).unwrap()
}

fn failure(text: &str) -> Failure {
    parse(&to_chars(text)).unwrap_err()
}

fn rules(nodes: &Vec<Node>) -> Vec<Rule> {
    nodes.iter().map(|n| n.rule).collect()
}

const FONT: &str = "/// A font handle
#[attributes(Handle, Drop)]
#[derive(Widget)]
#[traits(Paint, Layout)]
struct Font {
    /// Size in points
    size: f32 = 12,
    name: String = \"none\",
    data: [u8],
    matrix: [f32; 16],
    parent: *Font?,
    owner: *const Window,
    style: &Style,
    refs: [&Style; COUNT]?
    /// Loads a font
    /// from a file
    [static] load(path: String, flags: LoadFlags) -> Font?,
    [manual] draw(text: String, va_args: VA_ARGS),
    set_size(size: f32 = 10)
    count() -> i32
}
";

#[test]
fn tree_of_a_type_alias() {
    let nodes = tree("type MetadataId: u64");
    assert_eq!(nodes.len(), 1);
    assert_eq!(nodes[0].rule, Rule::TypeValue);
    assert_eq!(nodes[0].text, "type MetadataId: u64");
    assert_eq!(rules(&nodes[0].children), vec![Rule::Var]);
    let var = &nodes[0].children[0];
    assert_eq!(var.text, "MetadataId: u64");
    assert_eq!(rules(&var.children), vec![Rule::Name, Rule::VType]);
    assert_eq!(var.children[0].text, "MetadataId");
    assert_eq!(var.children[1].text, "u64");
}

#[test]
fn tree_of_a_struct_with_clauses() {
    let nodes = tree(FONT);
    assert_eq!(rules(&nodes), vec![Rule::DocComment, Rule::StructDef]);
    assert_eq!(nodes[0].text, "/// A font handle");
    let font = &nodes[1];
    assert_eq!(
        rules(&font.children),
        vec![Rule::Attributes, Rule::Derive, Rule::Traits, Rule::Name, Rule::Fieldlist]
    );
    assert_eq!(font.children[0].text, "#[attributes(Handle, Drop)]");
    assert_eq!(rules(&font.children[0].children), vec![Rule::Namelist]);
    assert_eq!(font.children[0].children[0].text, "Handle, Drop");
    assert_eq!(font.children[3].text, "Font");
    assert!(font.text.starts_with("#[attributes"));
    assert!(font.text.ends_with("}"));
}

#[test]
fn tree_of_an_array_with_size() {
    let nodes = tree("struct M { matrix: [*const f32; 16]? = none }");
    let var = &nodes[0].children[1].children[0].children[0];
    assert_eq!(var.rule, Rule::Var);
    assert_eq!(
        rules(&var.children),
        vec![Rule::Name, Rule::Array, Rule::Optional, Rule::DefaultVal]
    );
    let array = &var.children[1];
    assert_eq!(array.text, "[*const f32; 16]");
    assert_eq!(rules(&array.children), vec![Rule::ConstPtrExp, Rule::VType, Rule::ArraySize]);
    assert_eq!(array.children[0].text, "*const");
    assert_eq!(array.children[2].text, "; 16");
    assert_eq!(rules(&array.children[2].children), vec![Rule::NameOrNum]);
    assert_eq!(var.children[3].text, "= none");
}

#[test]
fn struct_with_everything() {
    let def = ApiParser::parse_string(FONT, "defs/font.def").unwrap();
    assert_eq!(def.filename, "defs/font.def");
    assert_eq!(def.base_filename, "font");
    assert_eq!(def.structs.len(), 1);
    let font = &def.structs[0];
    assert_eq!(font.name, "Font");
    assert_eq!(font.def_file, "font");
    assert_eq!(font.doc_comments, vec!["A font handle"]);
    assert_eq!(font.attributes, vec!["Handle", "Drop"]);
    assert_eq!(font.derives, vec!["Widget"]);
    assert_eq!(font.traits, vec!["Paint", "Layout"]);
    assert!(font.has_attribute("Handle"));
    assert!(font.has_attribute("Drop"));
    assert!(!font.has_attribute("Widget"));

    assert_eq!(font.variables.len(), 8);
    let size = &font.variables[0];
    assert_eq!(size.name, "size");
    assert_eq!(size.vtype_name, "f32");
    assert_eq!(size.vtype, VariableType::Primitive);
    assert_eq!(size.default_value, "12");
    assert_eq!(size.doc_comments, vec!["Size in points"]);
    assert_eq!(size.array, None);
    assert_eq!(size.type_modifier, TypeModifier::NoModifier);
    assert!(!size.optional);
    assert_eq!(size.def_file, "");

    let name = &font.variables[1];
    assert_eq!(name.vtype, VariableType::Str);
    assert_eq!(name.default_value, "\"none\"");
    assert!(name.doc_comments.is_empty());

    let data = &font.variables[2];
    assert_eq!(data.vtype_name, "u8");
    assert_eq!(data.array, Some(ArrayType::Unsized));

    let matrix = &font.variables[3];
    assert_eq!(matrix.array, Some(ArrayType::SizedArray("16".to_string())));
    assert_eq!(matrix.vtype_name, "f32");

    let parent = &font.variables[4];
    assert_eq!(parent.type_modifier, TypeModifier::MutPointer);
    assert_eq!(parent.vtype, VariableType::Regular);
    assert_eq!(parent.vtype_name, "Font");
    assert!(parent.optional);

    let owner = &font.variables[5];
    assert_eq!(owner.type_modifier, TypeModifier::ConstPointer);
    assert_eq!(owner.vtype_name, "Window");

    let style = &font.variables[6];
    assert_eq!(style.type_modifier, TypeModifier::Reference);

    let refs = &font.variables[7];
    assert_eq!(refs.type_modifier, TypeModifier::Reference);
    assert_eq!(refs.array, Some(ArrayType::SizedArray("COUNT".to_string())));
    assert!(refs.optional);

    assert_eq!(font.functions.len(), 4);
    let load = &font.functions[0];
    assert_eq!(load.name, "load");
    assert_eq!(load.func_type, FunctionType::Static);
    assert_eq!(load.doc_comments, vec!["Loads a font", "from a file"]);
    assert_eq!(load.function_args.len(), 2);
    assert_eq!(load.function_args[0].name, "path");
    assert_eq!(load.function_args[1].vtype_name, "LoadFlags");
    let ret = load.return_val.as_ref().unwrap();
    assert_eq!(ret.vtype_name, "Font");
    assert_eq!(ret.name, "");
    assert!(ret.optional);

    let draw = &font.functions[1];
    assert_eq!(draw.func_type, FunctionType::Manual);
    assert_eq!(draw.function_args.len(), 3);
    assert_eq!(draw.function_args[0].name, "self");
    assert_eq!(draw.function_args[0].vtype, VariableType::SelfType);
    assert!(draw.return_val.is_none());
    assert!(draw.doc_comments.is_empty());

    let set_size = &font.functions[2];
    assert_eq!(set_size.func_type, FunctionType::Regular);
    assert_eq!(set_size.function_args[1].default_value, "10");
    assert_eq!(set_size.get_default_args().len(), 1);
    assert_eq!(set_size.get_default_args()[0].name, "size");

    let count = &font.functions[3];
    assert_eq!(count.function_args.len(), 1);
    assert_eq!(count.return_val.as_ref().unwrap().vtype, VariableType::Primitive);
}

#[test]
fn every_kind_of_chunk() {
    let text = "mod widgets
mod style
/// Called on events
callback on_event(event: &Event) -> bool
/// Identifier
type Id: u64
/// The version
const VERSION = 3
union Value { i: i64, f: f64 }
/// Colors
enum Color { Red, Green } flags ColorFlags
/// dropped at the end
";
    let def = ApiParser::parse_string(text, "all.def").unwrap();
    assert_eq!(def.mods, vec!["widgets", "style"]);
    assert_eq!(def.callbacks.len(), 1);
    assert_eq!(def.callbacks[0].name, "on_event");
    assert_eq!(def.callbacks[0].func_type, FunctionType::Static);
    assert_eq!(def.callbacks[0].doc_comments, vec!["Called on events"]);
    assert_eq!(def.callbacks[0].function_args.len(), 1);
    assert_eq!(def.callbacks[0].function_args[0].name, "event");
    assert_eq!(def.callbacks[0].function_args[0].vtype, VariableType::Regular);
    assert_eq!(def.types.len(), 1);
    assert!(def.types[0].doc_comments.is_empty());
    assert_eq!(def.types[0].var.doc_comments, vec!["Identifier"]);
    assert_eq!(def.consts.len(), 1);
    assert_eq!(def.consts[0].doc_comments, vec!["The version"]);
    assert_eq!(def.consts[0].value, "3");
    assert_eq!(def.unions.len(), 1);
    assert!(def.unions[0].doc_comments.is_empty());
    assert_eq!(def.unions[0].def_file, "all");
    assert_eq!(def.enums.len(), 1);
    assert_eq!(def.enums[0].name, "Color");
    assert_eq!(def.enums[0].flags_name, "ColorFlags");
    assert_eq!(def.enums[0].doc_comments, vec!["Colors"]);
    assert_eq!(def.enums[0].def_file, "all");
    assert!(def.structs.is_empty());
}

#[test]
fn documentation_waits_across_module_references() {
    let def = ApiParser::parse_string("/// first\nmod a\n/// second\nstruct S {}", "s.def").unwrap();
    assert_eq!(def.structs[0].doc_comments, vec!["first", "second"]);
}

#[test]
fn short_documentation_comment_is_skipped() {
    let def = ApiParser::parse_string("///\n/// x\n///y\nstruct S {}", "s.def").unwrap();
    assert_eq!(def.structs[0].doc_comments, vec!["x", ""]);
}

#[test]
fn empty_text_declares_nothing() {
    let def = ApiParser::parse_string("  \n\t ", "dir/empty.def").unwrap();
    assert_eq!(def.filename, "dir/empty.def");
    assert_eq!(def.base_filename, "empty");
    assert!(def.structs.is_empty() && def.enums.is_empty() && def.consts.is_empty());
}

#[test]
fn path_without_base_name_keeps_the_path() {
    let def = ApiParser::parse_string("mod a", "..").unwrap();
    assert_eq!(def.filename, "..");
    assert_eq!(def.base_filename, "");
    assert_eq!(def.mods, vec!["a"]);
}

#[test]
fn raw_string_may_span_lines() {
    let def = ApiParser::parse_string("const _MANUAL_C = \"line 1\nline 2\"", "c.def").unwrap();
    assert_eq!(def.consts[0].value, "\"line 1\nline 2\"");
}

#[test]
fn static_and_manual_marks() {
    let def = ApiParser::parse_string(
        "struct S { [static][manual] a(x: i32), [manual] [static] b(), [ static ] c() }",
        "s.def",
    )
    .unwrap();
    let f = &def.structs[0].functions;
    assert_eq!(f[0].func_type, FunctionType::Manual);
    assert_eq!(f[0].function_args.len(), 1);
    assert_eq!(f[0].function_args[0].name, "x");
    assert!(f[0].is_type_manual() && f[0].is_type_manual_static() && !f[0].is_type_static());
    assert_eq!(f[1].func_type, FunctionType::Static);
    assert!(f[1].function_args.is_empty());
    assert!(!f[1].is_type_manual() && f[1].is_type_manual_static() && f[1].is_type_static());
    assert_eq!(f[2].func_type, FunctionType::Static);
}

fn check(text: &str, offset: usize, expected: Expected) {
    let f = failure(text);
    assert_eq!(f, Failure { offset, expected });
}

#[test]
fn failures_name_place_and_expectation() {
    check("foo", 0, Expected::Declaration);
    check("struct", 6, Expected::Name);
    check("struct 9", 7, Expected::Name);
    check("struct Foo", 10, Expected::Symbol('{'));
    check("#x", 1, Expected::Symbol('['));
    check("#[foo(A)] struct S {}", 2, Expected::ClauseName);
    check("#[derive A)] struct S {}", 9, Expected::Symbol('('));
    check("#[derive(A ] struct S {}", 11, Expected::Symbol(')'));
    check("#[derive(A) struct S {}", 12, Expected::Symbol(']'));
    check("#[derive(A,)] struct S {}", 11, Expected::Name);
    check("#[derive(A)] union U {}", 13, Expected::StructKeyword);
    check("struct S { [inline] f() }", 12, Expected::MarkerName);
    check("struct S { [static f() }", 19, Expected::Symbol(']'));
    check("struct S { 5 }", 11, Expected::Field);
    check("struct S { a: u8", 16, Expected::Field);
    check("struct S { f(a: u32 }", 20, Expected::Symbol(')'));
    check("struct S { f(a u32) }", 15, Expected::Symbol(':'));
    check("struct S { a: [u8 }", 18, Expected::Symbol(']'));
    check("struct S { a: [u8; ] }", 19, Expected::Value);
    check("struct S { a: [u8; 4 }", 21, Expected::Symbol(']'));
    check("struct S { a: * }", 16, Expected::Name);
    check("struct S { a: u8 = }", 19, Expected::Value);
    check("struct S { a: u8 = \"x\ny\" }", 21, Expected::Symbol('"'));
    check("struct S { f() -> }", 18, Expected::Name);
    check("enum E { A = }", 13, Expected::Value);
    check("enum E { A } flags", 18, Expected::Name);
    check("const A", 7, Expected::Symbol('='));
    check("const A = ", 10, Expected::Value);
    check("const A = \"abc", 14, Expected::Symbol('"'));
    check("type A u64", 7, Expected::Symbol(':'));
    check("callback (a: u8)", 9, Expected::Name);
    check("callback f", 10, Expected::Symbol('('));
    check("mod", 3, Expected::Name);
    check("mod a b", 6, Expected::Declaration);
    check("// plain", 0, Expected::Declaration);
}

#[test]
fn syntax_error_carries_file_offset_and_words() {
    match ApiParser::parse_string("struct Foo (", "dir/foo.def") {
        Err(ApigenError::Syntax { file, offset, expected, found }) => {
            assert_eq!(file, "dir/foo.def");
            assert_eq!(offset, 11);
            assert_eq!(expected, "{");
            assert_eq!(found, "(");
        }
        other => panic!("unexpected: {:?}", other),
    }
    match ApiParser::parse_string("union", "u.def") {
        Err(ApigenError::Syntax { offset, expected, found, .. }) => {
            assert_eq!(offset, 5);
            assert_eq!(expected, "a name");
            assert_eq!(found, "");
        }
        other => panic!("unexpected: {:?}", other),
    }
    match ApiParser::parse_string("x", "u.def") {
        Err(ApigenError::Syntax { expected, .. }) => assert_eq!(expected, "a declaration"),
        other => panic!("unexpected: {:?}", other),
    }
}

#[test]
fn text_beyond_ascii() {
    let def = ApiParser::parse_string("/// Größe — in Punkten\nconst NAME = \"héllo\"", "ü.def").unwrap();
    assert_eq!(def.consts[0].doc_comments, vec!["Größe — in Punkten"]);
    assert_eq!(def.consts[0].value, "\"héllo\"");
    assert_eq!(def.base_filename, "ü");
    let f = failure("/// é\né");
    assert_eq!(f, Failure { offset: 6, expected: Expected::Declaration });
}

#[test]
fn callbacks_are_static_and_have_no_receiver() {
    let text = "callback plain(a: i32, b: String, c: [u8])
callback none()
[static] is no declaration";
    assert_eq!(failure(text), Failure { offset: 59, expected: Expected::Declaration });
    let def = ApiParser::parse_string(
        "callback plain(a: i32, b: String, c: [u8]) -> bool
         callback none()
         callback marked [static] ()
         callback [static] stat(x: Font)
         callback [manual] man(x: Font, y: u8)
         callback [manual] [static] both(x: Font)",
        "cb.def",
    );
    match def {
        Err(ApigenError::Syntax { offset, expected, .. }) => {
            assert_eq!(offset, 101);
            assert_eq!(expected, "(");
        }
        other => panic!("unexpected: {:?}", other),
    }
    let def = ApiParser::parse_string(
        "callback plain(a: i32, b: String, c: [u8]) -> bool
         callback none()
         callback [static] stat(x: Font)
         callback [manual] man(x: Font, y: u8)
         callback [manual] [static] both(x: Font)",
        "cb.def",
    )
    .unwrap();
    let counts: Vec<usize> = def.callbacks.iter().map(|c| c.function_args.len()).collect();
    assert_eq!(counts, vec![3, 0, 1, 2, 1]);
    for callback in &def.callbacks {
        assert_eq!(callback.func_type, FunctionType::Static);
        assert!(callback.is_type_static());
        for arg in &callback.function_args {
            assert_ne!(arg.vtype, VariableType::SelfType);
            assert_ne!(arg.name, "self");
        }
    }
    let names: Vec<&str> = def.callbacks[0].function_args.iter().map(|a| a.name.as_str()).collect();
    assert_eq!(names, vec!["a", "b", "c"]);
    assert!(def.callbacks[0].return_val.is_some());
}

#[test]
fn enums_come_from_the_file() {
    let def = ApiParser::parse_string("enum A { X } struct S { } enum B { Y = 2 }", "dir/colors.def").unwrap();
    assert_eq!(def.enums[0].def_file, "colors");
    assert_eq!(def.enums[1].def_file, "colors");
    assert_eq!(def.structs[0].def_file, "colors");
    let def = ApiParser::parse_string("enum A { X }", "..").unwrap();
    assert_eq!(def.enums[0].def_file, "");
}

#[test]
fn base_name_is_a_piece_of_the_path() {
    for path in ["a.def", "dir/a.def", "dir.x/a", ".hidden", "a.b.c", "dir/", "", "/", "a/..", "é/ü.def"] {
        let def = ApiParser::parse_string("", path).unwrap();
        assert!(path.contains(def.base_filename.as_str()));
        assert_eq!(def.filename, path);
    }
    assert_eq!(ApiParser::parse_string("", "dir/a.b.def").unwrap().base_filename, "a.b");
}
