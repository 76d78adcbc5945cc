use typeward::combinators::{And, Span, Ws};
use typeward::error::{ParseError, SourceSpan};
use typeward::input::{BytesInput, Input, StrInput, TokenStream};
use typeward::literals::KwNull;
use typeward::parse::{
    parse_complete, parse_complete_input, parse_complete_input_spanned, parse_complete_spanned,
};
use typeward::token::Token;

#[derive(Debug, Clone, Copy, PartialEq, Eq, Default)]
struct HelloParser;

impl Token for HelloParser {
    fn value() -> &'static str {
        "hello"
    }

    fn token() -> Self {
        HelloParser
    }
}

#[test]
fn complete_test_parse_complete_success() {
    let result = parse_complete::<HelloParser>("hello").unwrap();
    assert_eq!(result, HelloParser);
}

#[test]
fn complete_test_parse_complete_with_whitespace() {
    let result = parse_complete::<HelloParser>("hello   ").unwrap();
    assert_eq!(result, HelloParser);
}

#[test]
fn complete_test_parse_complete_spanned() {
    let result = parse_complete_spanned::<HelloParser>("hello").unwrap();
    assert_eq!(result.span.start, 0);
    assert_eq!(result.span.end, 5);
}

#[test]
fn complete_test_parse_complete_trailing_input() {
    let result = parse_complete::<HelloParser>("hello world");
    assert!(result.is_err());
}

#[test]
fn complete_test_parse_complete_input_bytes() {
    let result = parse_complete_input::<_, HelloParser>(BytesInput::new(b"hello".as_slice())).unwrap();
    assert_eq!(result, HelloParser);
}

#[test]
fn complete_test_parse_complete_input_tokens() {
    let tokens = ["hello"];
    let result = parse_complete_input::<_, HelloParser>(TokenStream::new(&tokens)).unwrap();
    assert_eq!(result, HelloParser);
}

#[test]
fn complete_test_parse_complete_input_spanned_tokens() {
    let tokens = ["hello"];
    let result = parse_complete_input_spanned::<_, HelloParser>(TokenStream::new(&tokens)).unwrap();
    assert_eq!(result.span.start, 0);
    assert_eq!(result.span.end, 1);
}

#[test]
fn complete_test_parse_complete_input_spanned_bytes_uses_byte_offsets() {
    let result =
        parse_complete_input_spanned::<_, char>(BytesInput::new("\u{00E9}".as_bytes())).unwrap();
    assert_eq!(result.inner, '\u{00E9}');
    assert_eq!(result.span, SourceSpan::new(0, 2));
}

#[test]
fn complete_test_parse_complete_input_trailing_bytes_reports_byte_span() {
    let err = parse_complete_input::<_, HelloParser>(BytesInput::new("hello\u{00E9}".as_bytes()))
        .err()
        .expect("expected trailing byte input error");
    assert_eq!(err.span(), Some(SourceSpan::new(5, 7)));
}

#[test]
fn complete_test_parse_complete_input_trailing_tokens_reports_token_span() {
    let tokens = ["hello", "world"];
    let err = parse_complete_input::<_, HelloParser>(TokenStream::new(&tokens))
        .err()
        .expect("expected trailing token input error");
    assert_eq!(err.span(), Some(SourceSpan::new(1, 2)));
}

#[test]
fn complete_test_parse_complete_tracks_nested_span_offset() {
    type Parser = And<Ws<i64>, Span<Ws<KwNull>>>;
    let result = parse_complete::<Parser>("42 null").unwrap();
    let null = result.right;
    assert_eq!(null.span, SourceSpan::new(2, 7));
}

#[test]
fn complete_test_parse_complete_tracks_error_offset() {
    type Parser = And<Ws<i64>, Ws<KwNull>>;
    let err = parse_complete::<Parser>("42 nope").unwrap_err();
    assert_eq!(err.span(), Some(SourceSpan::point(3)));
}

#[test]
fn complete_test_parse_complete_tracks_eof_after_partial_consumption() {
    type Parser = And<char, char>;
    let err: ParseError = parse_complete::<Parser>("a").unwrap_err();
    assert_eq!(err.span(), Some(SourceSpan::point(1)));
}

