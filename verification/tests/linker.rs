use apigen::{ApiDef, ApiParser, EnumType, VariableType};

fn defs() -> Vec<ApiDef> {
    let a = ApiParser::parse_string(
        "enum Color { Red, Green } flags ColorFlags
         enum Bits { A = 1, B = 2 }
         #[attributes(Handle)]
         struct Window { }
         struct Marker { }
         struct Pen {
             color: Color,
             set(color: Color, width: i32, flags: ColorFlags, other: Other, shape: Shape, bits: [Bits]) -> Color
         }
         union U { f(c: Color) }
         callback cb(c: Color)",
        "dir/a.def",
    )
    .unwrap();
    let b = ApiParser::parse_string(
        "enum Shape { Round = 1, Flat = 1 }
         struct Brush { paint(shape: Shape, pen: Pen) }
         struct Marker { x: u8 }",
        "dir/b.def",
    )
    .unwrap();
    vec![a, b]
}

#[test]
fn arguments_of_enum_type_are_upgraded() {
    let mut defs = defs();
    ApiParser::second_pass(&mut defs);
    let set = &defs[0].structs[2].functions[0];
    let kinds: Vec<VariableType> = set.function_args.iter().map(|a| a.vtype).collect();
    assert_eq!(
        kinds,
        vec![
            VariableType::SelfType,
            VariableType::Enum,
            VariableType::Primitive,
            VariableType::Enum,
            VariableType::Regular,
            VariableType::Enum,
            VariableType::Enum,
        ]
    );
    assert_eq!(set.function_args[1].vtype_name, "Color");
    let paint = &defs[1].structs[0].functions[0];
    assert_eq!(paint.function_args[1].vtype, VariableType::Enum);
    assert_eq!(paint.function_args[2].vtype, VariableType::Regular);
}

#[test]
fn fields_returns_unions_and_callbacks_stay() {
    let mut defs = defs();
    ApiParser::second_pass(&mut defs);
    assert_eq!(defs[0].structs[2].variables[0].vtype, VariableType::Regular);
    assert_eq!(defs[0].structs[2].functions[0].return_val.as_ref().unwrap().vtype, VariableType::Regular);
    assert_eq!(defs[0].unions[0].functions[0].function_args[1].vtype, VariableType::Regular);
    assert_eq!(defs[0].callbacks[0].function_args.len(), 1);
    assert_eq!(defs[0].callbacks[0].function_args[0].vtype_name, "Color");
    assert_eq!(defs[0].callbacks[0].function_args[0].vtype, VariableType::Regular);
}

#[test]
fn linking_twice_is_linking_once() {
    let mut once = defs();
    ApiParser::second_pass(&mut once);
    let mut twice = defs();
    ApiParser::second_pass(&mut twice);
    ApiParser::second_pass(&mut twice);
    assert_eq!(format!("{:?}", once), format!("{:?}", twice));
    assert_ne!(format!("{:?}", once), format!("{:?}", defs()));
}

#[test]
fn linking_nothing() {
    let mut none: Vec<ApiDef> = Vec::new();
    ApiParser::second_pass(&mut none);
    assert!(none.is_empty());
    let mut plain = vec![ApiParser::parse_string("struct S { f(a: Color) }", "s.def").unwrap()];
    let before = format!("{:?}", plain);
    ApiParser::second_pass(&mut plain);
    assert_eq!(format!("{:?}", plain), before);
}

#[test]
fn tables_hold_structs_enums_and_markers() {
    let defs = defs();
    let tables = ApiParser::build_tables(&defs);
    assert_eq!(tables.type_def_file.len(), 8);
    assert_eq!(tables.type_def_file.get("Pen"), Some(&"a".to_string()));
    assert_eq!(tables.type_def_file.get("PenTrait"), Some(&"a".to_string()));
    assert_eq!(tables.type_def_file.get("Brush"), Some(&"b".to_string()));
    assert_eq!(tables.type_def_file.get("Marker"), Some(&"b".to_string()));
    assert_eq!(tables.type_def_file.get("MarkerTrait"), Some(&"b".to_string()));
    assert!(!tables.type_def_file.contains_key("U"));
    assert!(!tables.type_def_file.contains_key("Color"));

    assert_eq!(tables.enum_def_file_type.len(), 4);
    assert_eq!(tables.enum_def_file_type.get("Color"), Some(&("a".to_string(), EnumType::Regular)));
    assert_eq!(tables.enum_def_file_type.get("ColorFlags"), Some(&("a".to_string(), EnumType::Bitflags)));
    assert_eq!(tables.enum_def_file_type.get("Bits"), Some(&("a".to_string(), EnumType::Regular)));
    assert_eq!(tables.enum_def_file_type.get("Shape"), Some(&("b".to_string(), EnumType::Bitflags)));
    assert!(!tables.enum_def_file_type.contains_key(""));

    assert_eq!(tables.empty_structs.len(), 2);
    assert!(tables.empty_structs.contains("Marker"));
    assert!(tables.empty_structs.contains("Brush"));
    assert!(!tables.empty_structs.contains("Window"));
    assert!(!tables.empty_structs.contains("Pen"));
}
