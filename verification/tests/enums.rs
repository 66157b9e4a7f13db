use apigen::error::ApigenError;
use apigen::tree::{Node, Rule};
use apigen::{ApiParser, Enum, EnumEntry, EnumType};

fn leaf(rule: Rule, text: &str) -> Node {
    Node::new(rule, text.to_string(), Vec::new())
}

fn entry_node(name: &str, value: &str) -> Node {
    let assign = Node::new(Rule::EnumAssign, format!("= {}", value), vec![leaf(Rule::NameOrNum, value)]);
    Node::new(Rule::EnumEntry, format!("{} = {}", name, value), vec![leaf(Rule::Name, name), assign])
}

fn enum_of(values: &[u64]) -> Enum {
    let mut e = Enum::default();
    for (i, v) in values.iter().enumerate() {
        e.entries.push(EnumEntry { doc_comments: Vec::new(), name: format!("E{}", i), value: *v });
    }
    e
}

fn values(text: &str) -> Vec<u64> {
    let def = ApiParser::parse_string(text, "e.def").unwrap();
    def.enums[0].entries.iter().map(|e| e.value).collect()
}

#[test]
fn run_of_values_is_regular() {
    let e = enum_of(&[0, 1, 2, 3]);
    assert!(ApiParser::check_sequential(&e));
    assert!(!ApiParser::check_overlapping(&e));
    assert!(!ApiParser::check_power_of_two(&e));
    assert_eq!(ApiParser::determine_enum_type(&e), EnumType::Regular);
}

#[test]
fn powers_of_two_are_bitflags() {
    let e = enum_of(&[1, 2, 4, 8]);
    assert!(!ApiParser::check_sequential(&e));
    assert!(ApiParser::check_power_of_two(&e));
    assert_eq!(ApiParser::determine_enum_type(&e), EnumType::Bitflags);
}

#[test]
fn duplicate_values_are_bitflags() {
    let e = enum_of(&[0, 0]);
    assert!(ApiParser::check_overlapping(&e));
    assert!(!ApiParser::check_power_of_two(&e));
    assert_eq!(ApiParser::determine_enum_type(&e), EnumType::Bitflags);
}

#[test]
fn gap_without_majority_is_regular() {
    let e = enum_of(&[0, 1, 5]);
    assert!(!ApiParser::check_sequential(&e));
    assert!(!ApiParser::check_overlapping(&e));
    assert!(!ApiParser::check_power_of_two(&e));
    assert_eq!(ApiParser::determine_enum_type(&e), EnumType::Regular);
}

#[test]
fn half_powers_of_two_is_no_majority() {
    assert!(!ApiParser::check_power_of_two(&enum_of(&[1, 3])));
    assert!(!ApiParser::check_power_of_two(&enum_of(&[0, 3, 4, 8])));
    assert!(ApiParser::check_power_of_two(&enum_of(&[0, 2, 4, 8])));
    assert!(ApiParser::check_power_of_two(&enum_of(&[1 << 63])));
    assert!(!ApiParser::check_power_of_two(&enum_of(&[u64::MAX])));
    assert_eq!(ApiParser::determine_enum_type(&enum_of(&[1, 3])), EnumType::Regular);
    assert_eq!(ApiParser::determine_enum_type(&enum_of(&[3, 4, 8])), EnumType::Bitflags);
}

#[test]
fn empty_enum_is_regular() {
    let e = enum_of(&[]);
    assert!(!ApiParser::check_sequential(&e));
    assert!(!ApiParser::check_overlapping(&e));
    assert!(!ApiParser::check_power_of_two(&e));
    assert_eq!(ApiParser::determine_enum_type(&e), EnumType::Regular);
}

#[test]
fn run_may_start_anywhere_and_end_at_the_maximum() {
    assert!(ApiParser::check_sequential(&enum_of(&[7])));
    assert!(ApiParser::check_sequential(&enum_of(&[5, 6, 7])));
    assert!(ApiParser::check_sequential(&enum_of(&[u64::MAX - 1, u64::MAX])));
    assert!(!ApiParser::check_sequential(&enum_of(&[u64::MAX, 0])));
    assert!(!ApiParser::check_sequential(&enum_of(&[3, 2, 1])));
    assert!(!ApiParser::check_sequential(&enum_of(&[1, 2, 2])));
    assert_eq!(ApiParser::determine_enum_type(&enum_of(&[1, 2])), EnumType::Regular);
    assert_eq!(ApiParser::determine_enum_type(&enum_of(&[1, 2, 3])), EnumType::Regular);
}

#[test]
fn overlap_is_found_at_any_distance() {
    assert!(ApiParser::check_overlapping(&enum_of(&[5, 1, 2, 3, 5])));
    assert!(!ApiParser::check_overlapping(&enum_of(&[5, 1, 2, 3, 4])));
}

#[test]
fn values_are_assigned_in_order() {
    assert_eq!(values("enum E { A, B = 5, C }"), vec![0, 5, 6]);
    assert_eq!(values("enum E { A, B, C }"), vec![0, 1, 2]);
    assert_eq!(values("enum E { A = 3, B, C = 1, D }"), vec![3, 4, 1, 2]);
    assert_eq!(values("enum E { A = 007 }"), vec![7]);
    assert_eq!(values("enum E { }"), Vec::<u64>::new());
}

#[test]
fn assign_values_on_entries() {
    let mut e = enum_of(&[u64::MAX, 5, u64::MAX]);
    assert_eq!(ApiParser::assign_values(&mut e.entries), None);
    assert_eq!(e.entries.iter().map(|x| x.value).collect::<Vec<_>>(), vec![0, 5, 6]);
    let mut full = enum_of(&[u64::MAX - 1, u64::MAX, u64::MAX]);
    assert_eq!(ApiParser::assign_values(&mut full.entries), Some(1));
    assert_eq!(full.entries[1].value, u64::MAX);
}

#[test]
fn written_maximum_counts_as_unassigned() {
    assert_eq!(values("enum E { A = 4, B = 18446744073709551615 }"), vec![4, 5]);
}

#[test]
fn enum_from_text_gets_its_representation() {
    let def = ApiParser::parse_string(
        "enum A { X, Y, Z }\nenum B { X = 1, Y = 2, Z = 4, W = 8 }\nenum C { X = 0, Y = 0 }\nenum D { X, Y, Z = 5 }",
        "e.def",
    )
    .unwrap();
    let types: Vec<EnumType> = def.enums.iter().map(|e| e.enum_type).collect();
    assert_eq!(
        types,
        vec![EnumType::Regular, EnumType::Bitflags, EnumType::Bitflags, EnumType::Regular]
    );
}

#[test]
fn entries_carry_their_documentation() {
    let def = ApiParser::parse_string("enum E {\n /// first\n A,\n B,\n /// third\n /// entry\n C\n}", "e.def")
        .unwrap();
    let e = &def.enums[0].entries;
    assert_eq!(e[0].doc_comments, vec!["first"]);
    assert!(e[1].doc_comments.is_empty());
    assert_eq!(e[2].doc_comments, vec!["third", "entry"]);
    assert_eq!(e[2].name, "C");
}

fn missing(text: &str) -> (String, String) {
    match ApiParser::parse_string(text, "e.def") {
        Err(ApigenError::MissingRequiredField { enum_name, entry }) => (enum_name, entry),
        other => panic!("unexpected: {:?}", other),
    }
}

#[test]
fn value_that_is_no_number_is_an_error() {
    assert_eq!(missing("enum Color { Red, Green = 0x10 }"), ("Color".to_string(), "Green".to_string()));
    assert_eq!(missing("enum E { A = B }"), ("E".to_string(), "A".to_string()));
    assert_eq!(
        missing("enum E { A = 18446744073709551616 }"),
        ("E".to_string(), "A".to_string())
    );
    assert_eq!(missing("enum F { A = 1_000 }"), ("F".to_string(), "A".to_string()));
}

#[test]
fn used_up_values_are_an_error() {
    assert_eq!(
        missing("enum Big { A = 18446744073709551614, B, C }"),
        ("Big".to_string(), "B".to_string())
    );
    assert_eq!(values("enum Big { A = 18446744073709551613, B }"), vec![u64::MAX - 2, u64::MAX - 1]);
}

#[test]
fn entry_from_a_node() {
    let docs = vec!["doc".to_string()];
    let e = ApiParser::get_enum(&docs, &entry_node("A", "+7")).unwrap();
    assert_eq!(e.name, "A");
    assert_eq!(e.value, 7);
    assert_eq!(e.doc_comments, docs);
    let plain = ApiParser::get_enum(&docs, &Node::new(Rule::EnumEntry, "B".to_string(), vec![leaf(Rule::Name, "B")]))
        .unwrap();
    assert_eq!(plain.value, u64::MAX);
    assert_eq!(ApiParser::get_enum_assign(&entry_node("A", "12").children[1]), "12");
    assert_eq!(ApiParser::get_enum_assign(&leaf(Rule::EnumAssign, "=")), "");
    for bad in ["", "+", "-1", "1 ", "0x1", "١"] {
        match ApiParser::get_enum(&docs, &entry_node("Bad", bad)) {
            Err(ApigenError::MissingRequiredField { enum_name, entry }) => {
                assert_eq!(enum_name, "");
                assert_eq!(entry, "Bad");
            }
            other => panic!("unexpected: {:?}", other),
        }
    }
}

#[test]
fn entries_from_a_field_list_node() {
    let field = |inner: Node| Node::new(Rule::Field, inner.text.clone(), vec![inner]);
    let list = Node::new(
        Rule::Fieldlist,
        String::new(),
        vec![
            leaf(Rule::DocComment, "/// one"),
            field(entry_node("A", "2")),
            field(leaf(Rule::Var, "x: u8")),
            Node::new(Rule::Field, String::new(), Vec::new()),
            field(Node::new(Rule::EnumEntry, "B".to_string(), vec![leaf(Rule::Name, "B")])),
        ],
    );
    let entries = ApiParser::fill_field_list_enum(&list).unwrap();
    assert_eq!(entries.len(), 2);
    assert_eq!(entries[0].doc_comments, vec!["one"]);
    assert_eq!((entries[0].name.as_str(), entries[0].value), ("A", 2));
    assert_eq!((entries[1].name.as_str(), entries[1].value), ("B", 3));
}
