use apigen::{is_primitve, ApiParser};

#[test]
fn test_primitve_ok() {
    assert!(is_primitve("i32"));
}

#[test]
fn test_primitve_false() {
    assert!(!is_primitve("dummy"));
}

#[test]
fn test_type() {
    let def = ApiParser::parse_string("type MetadataId: u64", "metadata.def").unwrap();
    assert_eq!(def.types.len(), 1);
    assert_eq!(def.types[0].var.name, "MetadataId");
    assert_eq!(def.types[0].var.vtype_name, "u64");
}

#[test]
fn test_union() {
    let d = ApiParser::parse_string("union Test { foo: u64, bar: u32 }", "union.def").unwrap();
    assert_eq!(d.unions.len(), 1);
    assert_eq!(d.unions[0].name, "Test");
    assert_eq!(d.unions[0].variables.len(), 2);
    assert_eq!(d.unions[0].variables[0].name, "foo");
    assert_eq!(d.unions[0].variables[0].vtype_name, "u64");
    assert_eq!(d.unions[0].variables[1].name, "bar");
    assert_eq!(d.unions[0].variables[1].vtype_name, "u32");
}

#[test]
fn test_const() {
    let def = ApiParser::parse_string("const FOOBAR = \"test\"", "const.def").unwrap();
    assert_eq!(def.consts.len(), 1);
    assert_eq!(def.consts[0].name, "FOOBAR");
    assert_eq!(def.consts[0].value, "\"test\"");
}

#[test]
fn test_const_2() {
    let def = ApiParser::parse_string("const FOOBAR = 0x123", "const.def").unwrap();
    assert_eq!(def.consts.len(), 1);
    assert_eq!(def.consts[0].name, "FOOBAR");
    assert_eq!(def.consts[0].value, "0x123");
}
