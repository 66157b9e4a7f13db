use apigen::tree::{Node, Rule};
use apigen::{classify_type, ApiParser, ArrayType, FunctionType, TypeModifier, Variable, VariableType};

fn leaf(rule: Rule, text: &str) -> Node {
    Node::new(rule, text.to_string(), Vec::new())
}

fn branch(rule: Rule, children: Vec<Node>) -> Node {
    Node::new(rule, String::new(), children)
}

fn var_node(name: &str, vtype: &str) -> Node {
    branch(Rule::Var, vec![leaf(Rule::Name, name), leaf(Rule::VType, vtype)])
}

#[test]
fn primitive_names_are_primitive() {
    for name in ["void", "i8", "u8", "i16", "u16", "i32", "u32", "i64", "u64", "bool", "f32", "f64"] {
        assert!(apigen::is_primitve(name));
        assert_eq!(classify_type(name), VariableType::Primitive);
    }
}

#[test]
fn other_names_are_regular() {
    for name in ["", "string", "Font", "u128", "usize", "I32", "i32 ", "Void", "char", "f16", "u"] {
        assert!(!apigen::is_primitve(name));
        assert_eq!(classify_type(name), VariableType::Regular);
    }
    assert!(!apigen::is_primitve("String"));
    assert_eq!(classify_type("String"), VariableType::Str);
}

#[test]
fn variable_from_a_node_last_one_wins() {
    let node = branch(
        Rule::Var,
        vec![
            leaf(Rule::Name, "first"),
            leaf(Rule::PointerExp, "*"),
            leaf(Rule::VType, "A"),
            leaf(Rule::Name, "second"),
            leaf(Rule::RefExp, "&"),
            leaf(Rule::VType, "u8"),
            leaf(Rule::Namelist, "ignored"),
        ],
    );
    let docs = vec!["d1".to_string(), "d2".to_string()];
    let var = ApiParser::get_variable(&node, &docs);
    assert_eq!(var.name, "second");
    assert_eq!(var.vtype_name, "u8");
    assert_eq!(var.vtype, VariableType::Primitive);
    assert_eq!(var.type_modifier, TypeModifier::Reference);
    assert_eq!(var.doc_comments, docs);
    assert_eq!(var.array, None);
    assert_eq!(var.default_value, "");
    assert!(!var.optional);
}

#[test]
fn variable_from_an_empty_node() {
    let var = ApiParser::get_variable(&branch(Rule::Var, Vec::new()), &Vec::new());
    assert_eq!(var.name, "");
    assert_eq!(var.vtype_name, "");
    assert_eq!(var.vtype, VariableType::Regular);
    assert_eq!(var.type_modifier, TypeModifier::NoModifier);
}

#[test]
fn array_node_sets_shape_type_and_modifier() {
    let size = branch(Rule::ArraySize, vec![leaf(Rule::NameOrNum, "4"), leaf(Rule::NameOrNum, "5")]);
    let array = branch(Rule::Array, vec![leaf(Rule::ConstPtrExp, "*const"), leaf(Rule::VType, "Item"), size]);
    let node = branch(Rule::Var, vec![leaf(Rule::Name, "items"), leaf(Rule::VType, "Old"), array]);
    let var = ApiParser::get_variable(&node, &Vec::new());
    assert_eq!(var.vtype_name, "Item");
    assert_eq!(var.type_modifier, TypeModifier::ConstPointer);
    assert_eq!(var.array, Some(ArrayType::SizedArray("4".to_string())));

    let unsized_array = branch(Rule::Array, vec![leaf(Rule::VType, "u8")]);
    let var = ApiParser::get_variable(&branch(Rule::Var, vec![unsized_array]), &Vec::new());
    assert_eq!(var.array, Some(ArrayType::Unsized));

    let no_size = branch(Rule::Array, vec![leaf(Rule::ArraySize, "; ")]);
    let var = ApiParser::get_variable(&branch(Rule::Var, vec![no_size]), &Vec::new());
    assert_eq!(var.array, Some(ArrayType::SizedArray(String::new())));
}

#[test]
fn default_value_is_the_first_literal() {
    let default =
        branch(Rule::DefaultVal, vec![leaf(Rule::Name, "n"), leaf(Rule::StringLit, "\"a\""), leaf(Rule::NameOrNum, "1")]);
    let mut var = Variable::default();
    var.name = "kept".to_string();
    ApiParser::get_default_value(&mut var, &default);
    assert_eq!(var.default_value, "\"a\"");
    assert_eq!(var.name, "kept");
    ApiParser::get_default_value(&mut var, &branch(Rule::DefaultVal, Vec::new()));
    assert_eq!(var.default_value, "");
}

#[test]
fn receiver_comes_first_unless_static() {
    let list = branch(Rule::Varlist, vec![var_node("a", "u8"), var_node("b", "Font")]);
    let args = ApiParser::get_variable_list(&list, false);
    assert_eq!(args.len(), 3);
    assert_eq!(args[0].name, "self");
    assert_eq!(args[0].vtype, VariableType::SelfType);
    assert_eq!(args[0].vtype_name, "");
    assert_eq!(args[1].name, "a");
    assert_eq!(args[2].vtype, VariableType::Regular);
    let args = ApiParser::get_variable_list(&list, true);
    assert_eq!(args.len(), 2);
    assert_eq!(args[0].name, "a");
    let none = ApiParser::get_variable_list(&branch(Rule::Varlist, Vec::new()), false);
    assert_eq!(none.len(), 1);
    assert_eq!(none[0].name, "self");
}

#[test]
fn static_mark_counts_wherever_it_stands() {
    let list = || branch(Rule::Varlist, vec![var_node("a", "u8")]);
    let late = branch(Rule::Function, vec![leaf(Rule::Name, "f"), list(), leaf(Rule::StaticTyp, "[static]")]);
    let f = ApiParser::get_function(&late, &Vec::new());
    assert_eq!(f.func_type, FunctionType::Static);
    assert_eq!(f.function_args.len(), 1);
    assert_eq!(f.function_args[0].name, "a");
    assert!(f.is_type_manual_static());
    let early = branch(Rule::Function, vec![leaf(Rule::StaticTyp, "[static]"), leaf(Rule::Name, "f"), list()]);
    let f = ApiParser::get_function(&early, &vec!["doc".to_string()]);
    assert_eq!(f.function_args.len(), 1);
    assert_eq!(f.function_args[0].name, "a");
    assert_eq!(f.doc_comments, vec!["doc"]);
    assert_eq!(f.name, "f");
    assert!(f.return_val.is_none());
    let overruled = branch(
        Rule::Function,
        vec![leaf(Rule::StaticTyp, "[static]"), leaf(Rule::ManualTyp, "[manual]"), leaf(Rule::Name, "f"), list()],
    );
    let f = ApiParser::get_function(&overruled, &Vec::new());
    assert_eq!(f.func_type, FunctionType::Manual);
    assert!(f.is_type_manual_static());
    assert_eq!(f.function_args.len(), 1);
    let no_list = branch(Rule::Function, vec![leaf(Rule::Name, "f"), leaf(Rule::StaticTyp, "[static]")]);
    assert!(ApiParser::get_function(&no_list, &Vec::new()).function_args.is_empty());
}

#[test]
fn function_that_is_not_static_has_the_receiver_first() {
    let check = |f: apigen::Function, names: Vec<&str>| {
        assert_eq!(f.function_args.len(), names.len() + 1);
        assert_eq!(f.function_args[0].name, "self");
        assert_eq!(f.function_args[0].vtype, VariableType::SelfType);
        assert_eq!(f.function_args[0].vtype_name, "");
        for (i, name) in names.iter().enumerate() {
            assert_eq!(f.function_args[i + 1].name, *name);
            assert_ne!(f.function_args[i + 1].vtype, VariableType::SelfType);
        }
    };
    let bare = ApiParser::get_function(&branch(Rule::Function, vec![leaf(Rule::Name, "g")]), &Vec::new());
    assert_eq!(bare.func_type, FunctionType::Regular);
    check(bare, vec![]);
    check(ApiParser::get_function(&branch(Rule::Function, Vec::new()), &Vec::new()), vec![]);
    let empty_list = branch(Rule::Function, vec![leaf(Rule::Name, "g"), branch(Rule::Varlist, Vec::new())]);
    check(ApiParser::get_function(&empty_list, &Vec::new()), vec![]);
    let two = branch(Rule::Varlist, vec![var_node("a", "u8"), var_node("b", "Font")]);
    let manual = branch(Rule::Function, vec![leaf(Rule::ManualTyp, "[manual]"), leaf(Rule::Name, "g"), two]);
    let f = ApiParser::get_function(&manual, &Vec::new());
    assert_eq!(f.func_type, FunctionType::Manual);
    check(f, vec!["a", "b"]);
    let lists = branch(
        Rule::Function,
        vec![
            branch(Rule::Varlist, vec![var_node("old", "u8")]),
            branch(Rule::Varlist, vec![var_node("x", "u8"), var_node("y", "u8"), var_node("z", "u8")]),
        ],
    );
    check(ApiParser::get_function(&lists, &Vec::new()), vec!["x", "y", "z"]);
}

#[test]
fn implicit_arguments_and_marks() {
    let with = ApiParser::get_implicit_args(false);
    assert_eq!(with.len(), 1);
    assert_eq!(with[0].name, "self");
    assert_eq!(with[0].vtype, VariableType::SelfType);
    assert!(ApiParser::get_implicit_args(true).is_empty());
    let node = branch(Rule::Function, vec![leaf(Rule::Name, "f"), leaf(Rule::StaticTyp, "[static]")]);
    assert!(apigen::resolver::has_rule(&node, Rule::StaticTyp));
    assert!(apigen::resolver::has_rule(&node, Rule::Name));
    assert!(!apigen::resolver::has_rule(&node, Rule::ManualTyp));
    assert!(!apigen::resolver::has_rule(&branch(Rule::Function, Vec::new()), Rule::StaticTyp));
}

#[test]
fn return_value_has_no_documentation() {
    let ret = branch(Rule::RetExp, vec![leaf(Rule::PointerExp, "*"), leaf(Rule::VType, "void")]);
    let node = branch(Rule::Function, vec![leaf(Rule::Name, "f"), ret]);
    let f = ApiParser::get_function(&node, &vec!["doc".to_string()]);
    let ret = f.return_val.unwrap();
    assert!(ret.doc_comments.is_empty());
    assert_eq!(ret.vtype, VariableType::Primitive);
    assert_eq!(ret.type_modifier, TypeModifier::MutPointer);
}

#[test]
fn struct_from_nodes() {
    let names = |rule: Rule, list: Vec<&str>| {
        branch(rule, vec![branch(Rule::Namelist, list.into_iter().map(|n| leaf(Rule::Name, n)).collect())])
    };
    let field = |inner: Node| branch(Rule::Field, vec![inner]);
    let fields = branch(
        Rule::Fieldlist,
        vec![
            leaf(Rule::DocComment, "/// of a"),
            leaf(Rule::DocComment, "//"),
            field(var_node("a", "u8")),
            leaf(Rule::DocComment, "/// of f"),
            field(leaf(Rule::EnumEntry, "E")),
            field(branch(Rule::Function, vec![leaf(Rule::Name, "f")])),
            field(var_node("b", "u8")),
        ],
    );
    let node = branch(
        Rule::StructDef,
        vec![
            names(Rule::Attributes, vec!["Handle"]),
            names(Rule::Traits, vec!["T1", "T2"]),
            names(Rule::Derive, vec![]),
            leaf(Rule::Name, "S"),
            fields,
        ],
    );
    let s = ApiParser::fill_struct(&node, &vec!["doc".to_string()], "file");
    assert_eq!(s.name, "S");
    assert_eq!(s.def_file, "file");
    assert_eq!(s.doc_comments, vec!["doc"]);
    assert_eq!(s.attributes, vec!["Handle"]);
    assert_eq!(s.traits, vec!["T1", "T2"]);
    assert!(s.derives.is_empty());
    assert_eq!(s.variables.len(), 2);
    assert_eq!(s.variables[0].doc_comments, vec!["of a"]);
    assert!(s.variables[1].doc_comments.is_empty());
    assert_eq!(s.functions.len(), 1);
    assert_eq!(s.functions[0].doc_comments, vec!["of f"]);
    assert_eq!(ApiParser::get_attrbutes(&leaf(Rule::Attributes, "")), Vec::<String>::new());
    assert_eq!(
        ApiParser::get_namelist_list(&branch(Rule::Namelist, vec![leaf(Rule::Name, "x"), leaf(Rule::VType, "y")])),
        vec!["x", "y"]
    );
    let (vars, funcs) = ApiParser::fill_field_list(&branch(Rule::Fieldlist, Vec::new()));
    assert!(vars.is_empty() && funcs.is_empty());
}

#[test]
fn callback_from_nodes() {
    let f = |name: &str| branch(Rule::Function, vec![leaf(Rule::Name, name)]);
    let node = branch(Rule::CallbackDef, vec![f("first"), leaf(Rule::Name, "x"), f("last")]);
    let func = ApiParser::fill_callback(&node, &vec!["doc".to_string()]);
    assert_eq!(func.name, "last");
    assert_eq!(func.doc_comments, vec!["doc"]);
    assert_eq!(func.func_type, FunctionType::Static);
    let empty = ApiParser::fill_callback(&branch(Rule::CallbackDef, Vec::new()), &vec!["doc".to_string()]);
    assert_eq!(empty.name, "");
    assert!(empty.doc_comments.is_empty());
    assert!(empty.function_args.is_empty());
}

#[test]
fn callback_has_its_parameters_and_nothing_else() {
    let list = || branch(Rule::Varlist, vec![var_node("a", "u8"), var_node("b", "Font")]);
    let function = branch(Rule::Function, vec![leaf(Rule::Name, "cb"), list()]);
    let func = ApiParser::fill_callback(&branch(Rule::CallbackDef, vec![function]), &Vec::new());
    assert_eq!(func.func_type, FunctionType::Static);
    assert_eq!(func.function_args.len(), 2);
    assert_eq!(func.function_args[0].name, "a");
    assert_eq!(func.function_args[1].name, "b");
    assert!(func.function_args.iter().all(|a| a.vtype != VariableType::SelfType));
}

#[test]
fn function_without_owning_type() {
    let list = || branch(Rule::Varlist, vec![var_node("a", "u8")]);
    let plain = branch(Rule::Function, vec![leaf(Rule::Name, "f"), list()]);
    let f = ApiParser::get_static_function(&plain, &vec!["doc".to_string()]);
    assert_eq!(f.func_type, FunctionType::Static);
    assert_eq!(f.function_args.len(), 1);
    assert_eq!(f.function_args[0].name, "a");
    assert_eq!(f.doc_comments, vec!["doc"]);
    let manual = branch(Rule::Function, vec![leaf(Rule::ManualTyp, "[manual]"), leaf(Rule::Name, "f"), list()]);
    let f = ApiParser::get_static_function(&manual, &Vec::new());
    assert_eq!(f.func_type, FunctionType::Manual);
    assert_eq!(f.function_args.len(), 1);
    let same = ApiParser::get_function(&plain, &Vec::new());
    assert_eq!(same.func_type, FunctionType::Regular);
    assert_eq!(same.function_args.len(), 2);
    let bare = ApiParser::get_static_function(&branch(Rule::Function, Vec::new()), &Vec::new());
    assert!(bare.function_args.is_empty());
    assert_eq!(bare.func_type, FunctionType::Static);
}

#[test]
fn enum_from_nodes_takes_its_file() {
    let entry = branch(Rule::EnumEntry, vec![leaf(Rule::Name, "A")]);
    let fields = branch(Rule::Fieldlist, vec![branch(Rule::Field, vec![entry])]);
    let node = branch(Rule::EnumDef, vec![leaf(Rule::Name, "E"), fields]);
    let e = ApiParser::fill_enum(&node, &vec!["doc".to_string()], "colors").unwrap();
    assert_eq!(e.def_file, "colors");
    assert_eq!(e.name, "E");
    assert_eq!(e.entries.len(), 1);
    assert_eq!(e.entries[0].value, 0);
    assert_eq!(e.doc_comments, vec!["doc"]);
}

#[test]
fn declarations_from_chunks() {
    let chunks = vec![
        leaf(Rule::DocComment, "/// c"),
        branch(Rule::ConstValue, vec![leaf(Rule::Name, "A"), leaf(Rule::RawString, "\"v\""), leaf(Rule::NameOrNum, "2")]),
        branch(Rule::ModDef, vec![leaf(Rule::Name, "m1"), leaf(Rule::VType, "no"), leaf(Rule::Name, "m2")]),
        branch(Rule::TypeValue, vec![var_node("T", "u8"), var_node("U", "String")]),
        leaf(Rule::Var, "ignored"),
    ];
    let def = ApiParser::build(&chunks, "a/b.def", Some("stem".to_string())).unwrap();
    assert_eq!(def.filename, "a/b.def");
    assert_eq!(def.base_filename, "stem");
    assert_eq!(def.consts[0].name, "A");
    assert_eq!(def.consts[0].value, "2");
    assert_eq!(def.consts[0].doc_comments, vec!["c"]);
    assert_eq!(def.mods, vec!["m1", "m2"]);
    assert_eq!(def.types[0].var.name, "U");
    assert!(def.types[0].var.doc_comments.is_empty());
    let def = ApiParser::build(&chunks, "a/b.def", None).unwrap();
    assert_eq!(def.filename, "a/b.def");
    assert_eq!(def.base_filename, "");
    assert_eq!(def.consts.len(), 1);
}
