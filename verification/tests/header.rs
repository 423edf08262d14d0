use rs2ts::error::{ErrorKind, Stage};
use rs2ts::header::{is_generic_params_exist, is_public_visibility, parse_fn_header};
use rs2ts::text::Span;

fn keys(text: &str) -> Vec<String> {
    let h = parse_fn_header(text).unwrap();
    h.generics.entries().iter().map(|e| e.key.clone()).collect()
}

#[test]
fn plain_public_header() {
    let h = parse_fn_header("pub fn add").unwrap();
    assert!(h.is_public);
    assert!(!h.is_async);
    assert_eq!(h.identifier, "add");
    assert!(h.generics.is_empty());
    assert_eq!(h.generics.len(), 0);
}

#[test]
fn private_header() {
    let h = parse_fn_header("fn add").unwrap();
    assert!(!h.is_public);
    assert!(!h.is_async);
    assert_eq!(h.identifier, "add");
}

#[test]
fn async_header_with_generics() {
    let h = parse_fn_header("pub async fn test<'a, P, K, H>").unwrap();
    assert!(h.is_public);
    assert!(h.is_async);
    assert_eq!(h.identifier, "test");
    assert_eq!(h.generics.len(), 3);
    assert_eq!(keys("pub async fn test<'a, P, K, H>"), vec!["P", "K", "H"]);
    for e in h.generics.entries() {
        assert!(e.bounds.is_empty());
    }
}

#[test]
fn bounds_at_the_declaration() {
    let h = parse_fn_header("async unsafe fn go<T: Clone + 'static, U: Into<Vec<T>>>").unwrap();
    assert!(h.is_async);
    assert!(!h.is_public);
    assert_eq!(h.identifier, "go");
    let entries = h.generics.entries();
    assert_eq!(entries.len(), 2);
    assert_eq!(entries[0].key, "T");
    assert_eq!(entries[0].bounds, vec!["Clone"]);
    assert_eq!(entries[1].key, "U");
    assert_eq!(entries[1].bounds, vec!["Into<Vec<T>>"]);
}

#[test]
fn qualifiers_with_an_abi() {
    let h = parse_fn_header("pub unsafe extern \"C\" fn call").unwrap();
    assert!(h.is_public);
    assert!(!h.is_async);
    assert_eq!(h.identifier, "call");
}

#[test]
fn name_is_trimmed() {
    let h = parse_fn_header("fn   spaced   <T>").unwrap();
    assert_eq!(h.identifier, "spaced");
    assert_eq!(keys("fn   spaced   <T>"), vec!["T"]);
}

#[test]
fn async_must_be_a_word() {
    assert!(!parse_fn_header("asynchronous fn f").unwrap().is_async);
    assert!(!parse_fn_header("pub fn async_io").unwrap().is_async);
    assert!(parse_fn_header("async\tfn f").unwrap().is_async);
}

#[test]
fn fn_in_a_name_is_no_keyword() {
    let h = parse_fn_header("pub fn fnord").unwrap();
    assert_eq!(h.identifier, "fnord");
    let e = parse_fn_header("pub fnord").unwrap_err();
    assert_eq!(e.kind, ErrorKind::EmptyIdentifier);
}

#[test]
fn unclosed_generics_are_refused() {
    let e = parse_fn_header("fn broken<T").unwrap_err();
    assert_eq!(e.kind, ErrorKind::MalformedGenerics);
    assert_eq!(e.kind.stage(), Stage::HeaderParser);
    assert_eq!(e.span, Span { start: 0, end: 11 });
}

#[test]
fn unclosed_nested_generics_are_refused() {
    let e = parse_fn_header("fn broken<T: Into<Vec<u8>>").unwrap_err();
    assert_eq!(e.kind, ErrorKind::MalformedGenerics);
}

#[test]
fn unclosed_generics_come_before_the_empty_name() {
    let e = parse_fn_header("fn <T").unwrap_err();
    assert_eq!(e.kind, ErrorKind::MalformedGenerics);
}

#[test]
fn missing_name_is_refused() {
    let e = parse_fn_header("pub fn").unwrap_err();
    assert_eq!(e.kind, ErrorKind::EmptyIdentifier);
    assert_eq!(e.kind.stage(), Stage::HeaderParser);
    assert_eq!(e.span, Span { start: 0, end: 6 });
    assert_eq!(parse_fn_header("fn <T>").unwrap_err().kind, ErrorKind::EmptyIdentifier);
    assert_eq!(parse_fn_header("fn   ").unwrap_err().kind, ErrorKind::EmptyIdentifier);
}

#[test]
fn missing_keyword_is_refused() {
    assert_eq!(parse_fn_header("pub add").unwrap_err().kind, ErrorKind::EmptyIdentifier);
    assert_eq!(parse_fn_header("").unwrap_err().kind, ErrorKind::EmptyIdentifier);
}

#[test]
fn arrow_inside_generics_closes_nothing() {
    let h = parse_fn_header("fn map<F: Fn(u8) -> u8, T>").unwrap();
    let entries = h.generics.entries();
    assert_eq!(entries.len(), 2);
    assert_eq!(entries[0].key, "F");
    assert_eq!(entries[0].bounds, vec!["Fn(u8) -> u8"]);
    assert_eq!(entries[1].key, "T");
}

#[test]
fn public_visibility() {
    assert!(is_public_visibility("pub fn f"));
    assert!(is_public_visibility("pub"));
    assert!(!is_public_visibility("fn f"));
    assert!(!is_public_visibility(" pub fn f"));
    assert!(!is_public_visibility("pu"));
    assert!(!is_public_visibility(""));
}

#[test]
fn generic_params_exist() {
    assert!(is_generic_params_exist(" test<'a, P>"));
    assert!(is_generic_params_exist("<"));
    assert!(!is_generic_params_exist(" test"));
    assert!(!is_generic_params_exist(""));
}
