use rs2ts::error::{ErrorKind, ParseError};
use rs2ts::segment::{parse_fn, Segments};
use rs2ts::text::Span;

fn parts(text: &str) -> (String, String, String) {
    let g = parse_fn(text).unwrap();
    (
        g.header.slice(text).unwrap(),
        g.params.slice(text).unwrap(),
        g.output.slice(text).unwrap(),
    )
}

fn refused(text: &str) -> ParseError {
    parse_fn(text).unwrap_err()
}

#[test]
fn cuts_a_plain_signature() {
    let text = "pub fn add(a: i32, b: i32) -> i32";
    let g = parse_fn(text).unwrap();
    assert_eq!(
        g,
        Segments {
            header: Span { start: 0, end: 10 },
            params: Span { start: 11, end: 25 },
            output: Span { start: 30, end: 33 },
        }
    );
    let (header, params, output) = parts(text);
    assert_eq!(header, "pub fn add");
    assert_eq!(params, "a: i32, b: i32");
    assert_eq!(output, "i32");
}

#[test]
fn trims_each_part() {
    let (header, params, output) = parts("  fn  f  (  a: u8 ,  )   ->   u8  \n");
    assert_eq!(header, "fn  f");
    assert_eq!(params, "a: u8 ,");
    assert_eq!(output, "u8");
}

#[test]
fn empty_parameter_list() {
    let (header, params, output) = parts("fn f() -> ()");
    assert_eq!(header, "fn f");
    assert_eq!(params, "");
    assert_eq!(output, "()");
}

#[test]
fn arrow_inside_the_parameter_list_is_passed_over() {
    let (header, params, output) = parts("fn run(f: fn(i32) -> i32) -> bool");
    assert_eq!(header, "fn run");
    assert_eq!(params, "f: fn(i32) -> i32");
    assert_eq!(output, "bool");
}

#[test]
fn arrow_inside_angle_brackets_is_passed_over() {
    let (_, params, output) = parts("fn run(f: Box<dyn Fn(u8) -> u8>) -> Box<dyn Fn() -> u8>");
    assert_eq!(params, "f: Box<dyn Fn(u8) -> u8>");
    assert_eq!(output, "Box<dyn Fn() -> u8>");
}

#[test]
fn where_clause_stays_with_the_return_type() {
    let (_, _, output) = parts("fn f<T>(x: T) -> T where T: Clone");
    assert_eq!(output, "T where T: Clone");
}

#[test]
fn generics_stay_with_the_header() {
    let (header, params, _) = parts("fn f<T: Into<Vec<u8>>>(x: T) -> T");
    assert_eq!(header, "fn f<T: Into<Vec<u8>>>");
    assert_eq!(params, "x: T");
}

#[test]
fn missing_paren_is_refused() {
    let e = refused("fn nothing -> i32");
    assert_eq!(e.kind, ErrorKind::MalformedSignature);
    assert_eq!(e.span, Span { start: 0, end: 17 });
}

#[test]
fn missing_arrow_is_refused() {
    assert_eq!(refused("fn f(a: i32)").kind, ErrorKind::MalformedSignature);
}

#[test]
fn unclosed_parameter_list_is_refused() {
    assert_eq!(refused("fn f(a: i32 -> i32").kind, ErrorKind::MalformedSignature);
}

#[test]
fn paren_inside_generics_is_refused() {
    let e = refused("fn apply<F: Fn(i32) -> i32>(f: F) -> i32");
    assert_eq!(e.kind, ErrorKind::MalformedSignature);
    assert_eq!(e.span, Span { start: 0, end: 40 });
}

#[test]
fn paren_inside_square_brackets_is_refused() {
    assert_eq!(refused("fn f[(a: u8) -> u8").kind, ErrorKind::MalformedSignature);
}

#[test]
fn empty_text_is_refused() {
    let e = refused("");
    assert_eq!(e.kind, ErrorKind::MalformedSignature);
    assert_eq!(e.span, Span { start: 0, end: 0 });
}

#[test]
fn spans_count_characters_not_bytes() {
    let text = "fn größe(ä: Maß) -> Übung";
    let g = parse_fn(text).unwrap();
    assert_eq!(g.header, Span { start: 0, end: 8 });
    assert_eq!(g.params, Span { start: 9, end: 15 });
    assert_eq!(g.output, Span { start: 20, end: 25 });
    let (header, params, output) = parts(text);
    assert_eq!(header, "fn größe");
    assert_eq!(params, "ä: Maß");
    assert_eq!(output, "Übung");
}

#[test]
fn slice_of_a_span_outside_the_text_is_none() {
    assert_eq!(Span { start: 2, end: 9 }.slice("short"), None);
    assert_eq!(Span { start: 3, end: 2 }.slice("short"), None);
    assert_eq!(Span { start: 1, end: 3 }.slice("short"), Some(String::from("ho")));
    assert_eq!(Span { start: 5, end: 5 }.slice("short"), Some(String::new()));
}
