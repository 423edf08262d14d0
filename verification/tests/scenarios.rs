use rs2ts::error::{ErrorKind, Stage};
use rs2ts::params::{parse_fn_input, render_parameters};
use rs2ts::signature::translate;
use rs2ts::text::Span;

#[test]
fn public_function_with_two_parameters() {
    let out = translate("pub fn add(a: i32, b: i32) -> i32").unwrap();
    assert_eq!(out, "export function add (a:i32, b:i32) : i32;");
}

#[test]
fn async_function_with_where_clause() {
    let out = translate("async fn fetch<T>(url: &str) -> T where T: Deserialize").unwrap();
    assert_eq!(out, "function fetch<T extends Deserialize> (url:&str) : Promise<T>;");
}

#[test]
fn lifetime_and_unbounded_parameter_give_no_generic_clause() {
    let out = translate("fn identity<'a, T>(x: &'a T) -> &'a T").unwrap();
    assert_eq!(out, "function identity (x:&'a T) : &'a T;");
}

#[test]
fn attribute_and_mut_are_removed_from_the_name() {
    let params = parse_fn_input("#[attr] mut value: u8").unwrap();
    assert_eq!(params.len(), 1);
    assert_eq!(params[0].name, "value");
    assert_eq!(render_parameters(&params), "value:u8");
    let out = translate("fn set(#[attr] mut value: u8) -> ()").unwrap();
    assert_eq!(out, "function set (value:u8) : ();");
}

#[test]
fn missing_arrow_is_a_malformed_signature() {
    let err = translate("fn bad(a: i32").unwrap_err();
    assert_eq!(err.kind, ErrorKind::MalformedSignature);
    assert_eq!(err.kind.stage(), Stage::Segmenter);
    assert_eq!(err.span, Span { start: 0, end: 13 });
}
