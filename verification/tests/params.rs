use rs2ts::error::{ErrorKind, Stage};
use rs2ts::params::{
    is_self_first_param, parse_fn_input, remove_attributes_and_mut_on_param, render_parameters,
    Parameter,
};
use rs2ts::text::Span;

fn pairs(text: &str) -> Vec<(String, String)> {
    parse_fn_input(text)
        .unwrap()
        .into_iter()
        .map(|p| (p.name, p.ty))
        .collect()
}

fn pair(name: &str, ty: &str) -> (String, String) {
    (String::from(name), String::from(ty))
}

#[test]
fn two_plain_parameters() {
    assert_eq!(pairs("a: i32, b: i32"), vec![pair("a", "i32"), pair("b", "i32")]);
}

#[test]
fn empty_list_has_no_parameters() {
    assert_eq!(pairs(""), vec![]);
    assert_eq!(pairs("   \n "), vec![]);
    assert_eq!(pairs(","), vec![]);
}

#[test]
fn trailing_comma_is_tolerated() {
    assert_eq!(pairs("a: u8,"), vec![pair("a", "u8")]);
    assert_eq!(pairs("a: u8, \n"), vec![pair("a", "u8")]);
}

#[test]
fn empty_entries_are_passed_over() {
    assert_eq!(pairs("a: u8, , b: u8"), vec![pair("a", "u8"), pair("b", "u8")]);
}

#[test]
fn commas_inside_brackets_cut_nothing() {
    assert_eq!(
        pairs("x: Result<A, B>, y: Option<&H>, z: (u8, u8), w: [u8; 2]"),
        vec![
            pair("x", "Result<A, B>"),
            pair("y", "Option<&H>"),
            pair("z", "(u8, u8)"),
            pair("w", "[u8; 2]"),
        ]
    );
}

#[test]
fn deeply_nested_type_is_one_parameter() {
    assert_eq!(
        pairs("m: HashMap<String, Vec<(u8, Option<&H>)>>"),
        vec![pair("m", "HashMap<String, Vec<(u8, Option<&H>)>>")]
    );
}

#[test]
fn attribute_and_mut_are_removed() {
    assert_eq!(
        pairs("mut hyunhum: K, #[warn(unused_mut)] mut minwoo: Option<&H>,"),
        vec![pair("hyunhum", "K"), pair("minwoo", "Option<&H>")]
    );
}

#[test]
fn attribute_next_to_the_name_is_removed() {
    assert_eq!(pairs("#[attr]value: u8"), vec![pair("value", "u8")]);
}

#[test]
fn colon_inside_an_attribute_is_not_the_colon() {
    assert_eq!(pairs("#[doc(a: b)] x: u8"), vec![pair("x", "u8")]);
}

#[test]
fn path_in_a_type_keeps_its_colons() {
    assert_eq!(pairs("x: std::vec::Vec<u8>"), vec![pair("x", "std::vec::Vec<u8>")]);
}

#[test]
fn receiver_is_left_out() {
    assert_eq!(pairs("self"), vec![]);
    assert_eq!(pairs("&self, x: u8"), vec![pair("x", "u8")]);
    assert_eq!(pairs("  &mut self  , a: A, b: B"), vec![pair("a", "A"), pair("b", "B")]);
}

#[test]
fn typed_receiver_is_a_parameter() {
    assert_eq!(pairs("self: Box<Self>"), vec![pair("self", "Box<Self>")]);
}

#[test]
fn receiver_behind_the_first_entry_is_refused() {
    let e = parse_fn_input("x: u8, self").unwrap_err();
    assert_eq!(e.kind, ErrorKind::MalformedParameter);
    let e = parse_fn_input(", self").unwrap_err();
    assert_eq!(e.kind, ErrorKind::MalformedParameter);
}

#[test]
fn entry_without_colon_is_refused() {
    let e = parse_fn_input("a: i32, b").unwrap_err();
    assert_eq!(e.kind, ErrorKind::MalformedParameter);
    assert_eq!(e.kind.stage(), Stage::ParameterParser);
    assert_eq!(e.span, Span { start: 0, end: 9 });
}

#[test]
fn entry_with_nested_colon_only_is_refused() {
    let e = parse_fn_input("m<a: b>").unwrap_err();
    assert_eq!(e.kind, ErrorKind::MalformedParameter);
}

#[test]
fn type_may_be_empty() {
    assert_eq!(pairs("a:"), vec![pair("a", "")]);
}

#[test]
fn name_of_a_parameter() {
    assert_eq!(remove_attributes_and_mut_on_param("#[attr] mut value"), "value");
    assert_eq!(remove_attributes_and_mut_on_param("mut x"), "x");
    assert_eq!(remove_attributes_and_mut_on_param("  x  "), "x");
    assert_eq!(remove_attributes_and_mut_on_param("x"), "x");
    assert_eq!(remove_attributes_and_mut_on_param("#[a]#[b]x"), "x");
    assert_eq!(remove_attributes_and_mut_on_param("#[a]\tmut\nx"), "x");
    assert_eq!(remove_attributes_and_mut_on_param(""), "");
    assert_eq!(remove_attributes_and_mut_on_param("#[attr]"), "");
}

#[test]
fn receiver_shapes() {
    assert!(is_self_first_param("self"));
    assert!(is_self_first_param("&self"));
    assert!(is_self_first_param("&mut self"));
    assert!(!is_self_first_param("Self"));
    assert!(!is_self_first_param(" self"));
    assert!(!is_self_first_param("mut self"));
    assert!(!is_self_first_param("selfish"));
    assert!(!is_self_first_param(""));
}

#[test]
fn parameters_are_written_with_a_colon() {
    let ps = vec![
        Parameter { name: String::from("a"), ty: String::from("i32") },
        Parameter { name: String::from("b"), ty: String::from("Vec<u8>") },
    ];
    assert_eq!(render_parameters(&ps), "a:i32, b:Vec<u8>");
    assert_eq!(render_parameters(&ps[..1].iter().map(|p| Parameter { name: p.name.clone(), ty: p.ty.clone() }).collect()), "a:i32");
    assert_eq!(render_parameters(&Vec::new()), "");
}
