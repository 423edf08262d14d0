use rs2ts::generics::GenericConstraintMap;
use rs2ts::output::parse_fn_output;
use rs2ts::types::{is_dereference_type, is_lifetime_type, is_reference_type, is_self_type};

fn read(text: &str) -> (String, Vec<(String, Vec<String>)>) {
    let mut map = GenericConstraintMap::new();
    let ret = parse_fn_output(text, &mut map);
    (ret, map.entries().iter().map(|e| (e.key.clone(), e.bounds.clone())).collect())
}

#[test]
fn return_type_alone() {
    assert_eq!(read("i32"), (String::from("i32"), vec![]));
    assert_eq!(read("  Result<(), (TestError, TestReturnType)>  ").0, "Result<(), (TestError, TestReturnType)>");
}

#[test]
fn return_type_and_where_clause() {
    let (ret, map) = read("T where T: Deserialize");
    assert_eq!(ret, "T");
    assert_eq!(map, vec![(String::from("T"), vec![String::from("Deserialize")])]);
}

#[test]
fn where_clause_over_several_lines() {
    let (ret, map) = read("Result<(), E>\n    where\n        P: 'a + ToBytes,\n        E: Error + Send,\n");
    assert_eq!(ret, "Result<(), E>");
    assert_eq!(
        map,
        vec![
            (String::from("P"), vec![String::from("ToBytes")]),
            (String::from("E"), vec![String::from("Error"), String::from("Send")]),
        ]
    );
}

#[test]
fn where_clause_adds_to_the_map() {
    let mut map = GenericConstraintMap::new();
    map.insert("T", &vec![String::from("Clone")]);
    let ret = parse_fn_output("T where T: Send, U: Sync", &mut map);
    assert_eq!(ret, "T");
    let entries = map.entries();
    assert_eq!(entries.len(), 2);
    assert_eq!(entries[0].key, "T");
    assert_eq!(entries[0].bounds, vec!["Clone", "Send"]);
    assert_eq!(entries[1].key, "U");
    assert_eq!(entries[1].bounds, vec!["Sync"]);
}

#[test]
fn where_must_be_a_word() {
    assert_eq!(read("Somewhere"), (String::from("Somewhere"), vec![]));
    assert_eq!(read("wherever"), (String::from("wherever"), vec![]));
}

#[test]
fn where_inside_brackets_is_passed_over() {
    let (ret, map) = read("Box<T where U> where T: A");
    assert_eq!(ret, "Box<T where U>");
    assert_eq!(map, vec![(String::from("T"), vec![String::from("A")])]);
}

#[test]
fn arrow_in_the_return_type_closes_nothing() {
    let (ret, map) = read("Box<dyn Fn() -> T> where T: Send");
    assert_eq!(ret, "Box<dyn Fn() -> T>");
    assert_eq!(map, vec![(String::from("T"), vec![String::from("Send")])]);
}

#[test]
fn empty_where_clause() {
    assert_eq!(read("u8 where"), (String::from("u8"), vec![]));
    assert_eq!(read("where T: A").0, "");
}

#[test]
fn self_is_passed_through() {
    assert_eq!(read("Self").0, "Self");
    assert_eq!(read("Option<Self>").0, "Option<Self>");
}

#[test]
fn self_type() {
    assert!(is_self_type("Self"));
    assert!(!is_self_type("self"));
    assert!(!is_self_type("Self "));
    assert!(!is_self_type("Option<Self>"));
    assert!(!is_self_type(""));
}

#[test]
fn reference_type() {
    assert!(is_reference_type("&str"));
    assert!(is_reference_type("&'a mut T"));
    assert!(!is_reference_type("str"));
    assert!(!is_reference_type(" &str"));
    assert!(!is_reference_type(""));
}

#[test]
fn dereference_type() {
    assert!(is_dereference_type("*const u8"));
    assert!(is_dereference_type("*x"));
    assert!(!is_dereference_type("u8*"));
    assert!(!is_dereference_type(""));
}

#[test]
fn lifetime_type() {
    assert!(is_lifetime_type("'a"));
    assert!(is_lifetime_type("'static"));
    assert!(is_lifetime_type("'_"));
    assert!(is_lifetime_type("'b: 'a"));
    assert!(!is_lifetime_type("a'"));
    assert!(!is_lifetime_type("T"));
    assert!(!is_lifetime_type(""));
}
