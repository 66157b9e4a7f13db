use apigen::error::{describe, syntax_error, ApigenError};
use apigen::files::{path_before, sort_by_filename};
use apigen::grammar::{Expected, Failure};
use apigen::lexis::{belongs, name_start, peek, peek_doc, read_word, scan, skip_space, CharClass};
use apigen::text::{clone_lines, parse_u64, str_eq, strip_marker, substring, to_chars};
use apigen::{ApiDef, ArrayType, EnumType, Function, Variable, VariableType};

fn def(filename: &str, base: &str) -> ApiDef {
    let mut d = ApiDef::default();
    d.filename = filename.to_string();
    d.base_filename = base.to_string();
    d
}

#[test]
fn files_are_sorted_by_path() {
    let defs = vec![def("b.def", "1"), def("a.def", "2"), def("c/a.def", "3"), def("B.def", "4"), def("a", "5")];
    let sorted = sort_by_filename(defs);
    let names: Vec<&str> = sorted.iter().map(|d| d.filename.as_str()).collect();
    assert_eq!(names, vec!["B.def", "a", "a.def", "b.def", "c/a.def"]);
    assert_eq!(sorted[0].base_filename, "4");
    assert!(sort_by_filename(Vec::new()).is_empty());
}

#[test]
fn equal_paths_all_stay() {
    let defs = vec![def("x", "1"), def("a", "2"), def("x", "3"), def("a", "4"), def("x", "5")];
    let sorted = sort_by_filename(defs);
    let names: Vec<&str> = sorted.iter().map(|d| d.filename.as_str()).collect();
    assert_eq!(names, vec!["a", "a", "x", "x", "x"]);
    let mut bases: Vec<&str> = sorted.iter().map(|d| d.base_filename.as_str()).collect();
    bases.sort();
    assert_eq!(bases, vec!["1", "2", "3", "4", "5"]);
}

#[test]
fn paths_compare_byte_by_byte() {
    assert!(path_before("", ""));
    assert!(path_before("", "a"));
    assert!(!path_before("a", ""));
    assert!(path_before("a", "a"));
    assert!(path_before("a", "ab"));
    assert!(!path_before("ab", "a"));
    assert!(path_before("Z", "a"));
    assert!(!path_before("b", "a"));
    assert!(path_before("z", "é"));
    assert!(path_before("é", "ü"));
    assert!(!path_before("\u{10000}", "\u{ffff}"));
}

#[test]
fn numbers_in_decimal_digits() {
    assert_eq!(parse_u64("0"), Some(0));
    assert_eq!(parse_u64("42"), Some(42));
    assert_eq!(parse_u64("+42"), Some(42));
    assert_eq!(parse_u64("0042"), Some(42));
    assert_eq!(parse_u64("18446744073709551615"), Some(u64::MAX));
    assert_eq!(parse_u64("18446744073709551616"), None);
    assert_eq!(parse_u64("99999999999999999999"), None);
    assert_eq!(parse_u64("184467440737095516150"), None);
    for bad in ["", "+", "-", "-1", "++1", "1+", " 1", "1 ", "0x10", "1e3", "1_0", "٣"] {
        assert_eq!(parse_u64(bad), None);
    }
    for n in [1u64, 9, 10, 255, 1 << 40, u64::MAX - 1] {
        assert_eq!(parse_u64(&n.to_string()), Some(n));
    }
}

#[test]
fn numbers_read_as_the_standard_library_reads_them() {
    let texts = [
        "", "+", "-", "0", "+0", "-0", "00", "7", "+7", "++7", "+-7", "7+", "12a", "a12", " 12", "12 ",
        "1.5", "1e5", "0x1f", "0b1", "١٢", "18446744073709551615", "18446744073709551616",
        "+18446744073709551615", "018446744073709551615", "28446744073709551615",
        "100000000000000000000", "9999999999999999999", "１２",
    ];
    for text in texts {
        assert_eq!(parse_u64(text), text.parse::<u64>().ok());
    }
}

#[test]
fn marker_is_stripped_by_characters() {
    assert_eq!(strip_marker("/// text"), Some("text".to_string()));
    assert_eq!(strip_marker("/// "), Some(String::new()));
    assert_eq!(strip_marker("///"), None);
    assert_eq!(strip_marker(""), None);
    assert_eq!(strip_marker("///étext"), Some("text".to_string()));
    assert_eq!(strip_marker("////"), Some(String::new()));
}

#[test]
fn characters_and_substrings() {
    let chars = to_chars("aé→z");
    assert_eq!(chars, vec!['a', 'é', '→', 'z']);
    assert_eq!(substring(&chars, 1, 3), "é→");
    assert_eq!(substring(&chars, 2, 2), "");
    assert_eq!(substring(&chars, 0, 4), "aé→z");
    assert!(to_chars("").is_empty());
    assert!(str_eq("", ""));
    assert!(str_eq("aé", "aé"));
    assert!(!str_eq("a", "ab"));
    assert!(!str_eq("ab", "ac"));
    let lines = vec!["x".to_string(), "".to_string()];
    assert_eq!(clone_lines(&lines), lines);
}

#[test]
fn runs_of_characters() {
    let chars = to_chars("  \t\n ab_9-x \"q\nr\" /// d");
    assert_eq!(skip_space(&chars, 0), 5);
    assert_eq!(skip_space(&chars, 5), 5);
    assert_eq!(scan(&chars, 5, CharClass::Word), 9);
    assert_eq!(read_word(&chars, 5), ("ab_9".to_string(), 9));
    assert_eq!(read_word(&chars, 9), (String::new(), 9));
    assert_eq!(scan(&chars, 5, CharClass::Line), 14);
    assert_eq!(scan(&chars, 13, CharClass::Quoted), 16);
    assert_eq!(scan(&chars, 13, CharClass::QuotedLine), 14);
    assert_eq!(scan(&chars, chars.len(), CharClass::Line), chars.len());
    assert!(peek(&chars, 9, '-'));
    assert!(!peek(&chars, 9, 'x'));
    assert!(!peek(&chars, chars.len(), ' '));
    assert!(peek_doc(&chars, 18));
    assert!(!peek_doc(&chars, 19));
    assert!(!peek_doc(&to_chars("//"), 0));
    assert!(name_start('_') && name_start('a') && name_start('Z') && !name_start('0') && !name_start('é'));
    assert!(belongs(CharClass::Word, '0') && !belongs(CharClass::Word, '-'));
    assert!(belongs(CharClass::Space, '\r') && !belongs(CharClass::Space, '\u{a0}'));
}

#[test]
fn words_for_every_expectation() {
    assert_eq!(describe(Expected::Declaration), "a declaration");
    assert_eq!(describe(Expected::Name), "a name");
    assert_eq!(describe(Expected::Value), "a quoted text, a name or a number");
    assert_eq!(describe(Expected::Field), "a field, a function, an enum entry or `}`");
    assert_eq!(describe(Expected::ClauseName), "`attributes`, `derive` or `traits`");
    assert_eq!(describe(Expected::MarkerName), "`static` or `manual`");
    assert_eq!(describe(Expected::StructKeyword), "`struct`");
    assert_eq!(describe(Expected::Symbol(']')), "]");
}

#[test]
fn syntax_error_from_a_failure() {
    let chars = to_chars("aé");
    match syntax_error("f.def", &chars, Failure { offset: 1, expected: Expected::Symbol('=') }) {
        ApigenError::Syntax { file, offset, expected, found } => {
            assert_eq!((file.as_str(), offset, expected.as_str(), found.as_str()), ("f.def", 1, "=", "é"));
        }
        other => panic!("unexpected: {:?}", other),
    }
    match syntax_error("f.def", &chars, Failure { offset: 2, expected: Expected::Name }) {
        ApigenError::Syntax { found, .. } => assert_eq!(found, ""),
        other => panic!("unexpected: {:?}", other),
    }
}

#[test]
fn input_error_becomes_disconnect() {
    let error = std::io::Error::new(std::io::ErrorKind::NotFound, "gone");
    match ApigenError::from(error) {
        ApigenError::Disconnect(inner) => assert_eq!(inner.kind(), std::io::ErrorKind::NotFound),
        other => panic!("unexpected: {:?}", other),
    }
}

#[test]
fn defaults_are_empty() {
    let v = Variable::default();
    assert_eq!(v.vtype, VariableType::NoType);
    assert_eq!(v.enum_type, EnumType::Regular);
    assert!(v.name.is_empty() && v.array.is_none() && !v.optional);
    assert_eq!(ArrayType::default(), ArrayType::Unsized);
    assert_eq!(EnumType::default(), EnumType::Regular);
    let f = Function::default();
    assert!(f.function_args.is_empty() && f.return_val.is_none());
    assert!(f.get_default_args().is_empty());
    assert!(!f.is_type_manual() && !f.is_type_static() && !f.is_type_manual_static());
}

#[test]
fn arguments_with_default_values() {
    let mut f = Function::default();
    for (name, default) in [("a", ""), ("b", "1"), ("c", ""), ("d", "\"x\"")] {
        let mut v = Variable::default();
        v.name = name.to_string();
        v.default_value = default.to_string();
        f.function_args.push(v);
    }
    let names: Vec<&str> = f.get_default_args().iter().map(|v| v.name.as_str()).collect();
    assert_eq!(names, vec!["b", "d"]);
}

#[test]
fn paths_are_ordered_as_strings_are() {
    let names = ["", "a", "A", "ab", "a/b", "a.b", "b", "é", "z", "a\u{0}", "\u{10000}", "\u{ffff}", "a b", "B.def"];
    for a in names {
        for b in names {
            assert_eq!(path_before(a, b), a <= b);
        }
    }
    let sorted = sort_by_filename(names.iter().map(|n| def(n, "")).collect());
    let mut expected: Vec<&str> = names.to_vec();
    expected.sort();
    assert_eq!(sorted.iter().map(|d| d.filename.as_str()).collect::<Vec<_>>(), expected);
}
