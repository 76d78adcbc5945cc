use typeward::combinators::{And, Span, Ws};
use typeward::error::{ParseError, SourceSpan};
use typeward::input::{BytesInput, Input, StrInput, TokenStream};
use typeward::literals::KwNull;
use typeward::parse::{
    current_parse_offset, parse_complete, parse_complete_input, parse_complete_input_spanned,
    parse_complete_spanned, with_parse_offset_scope, with_parse_offset_scope_if_missing, Nested,
    Parse, ParseOffsetContext,
};
use typeward::token::Token;

#[derive(Debug, Clone, Copy, PartialEq, Eq, Default)]
struct HelloParser;

impl Token for HelloParser {
    fn value() -> &'static str {
        "hello"
    }

    fn token() -> Self {
        HelloParser
    }
}

#[test]
fn parse_test_parse_complete_success() {
    let result = parse_complete::<HelloParser>("hello").unwrap();
    assert_eq!(result, HelloParser);
}

#[test]
fn parse_test_parse_complete_with_whitespace() {
    let result = parse_complete::<HelloParser>("hello   ").unwrap();
    assert_eq!(result, HelloParser);
}

#[test]
fn parse_test_parse_complete_spanned() {
    let result = parse_complete_spanned::<HelloParser>("hello").unwrap();
    assert_eq!(result.span.start, 0);
    assert_eq!(result.span.end, 5);
}

#[test]
fn parse_test_parse_complete_trailing_input() {
    let result = parse_complete::<HelloParser>("hello world");
    assert!(result.is_err());
}

#[test]
fn parse_test_parse_complete_input_bytes() {
    let result = parse_complete_input::<_, HelloParser>(BytesInput::new(b"hello".as_slice())).unwrap();
    assert_eq!(result, HelloParser);
}

#[test]
fn parse_test_parse_complete_input_tokens() {
    let tokens = ["hello"];
    let result = parse_complete_input::<_, HelloParser>(TokenStream::new(&tokens)).unwrap();
    assert_eq!(result, HelloParser);
}

#[test]
fn parse_test_parse_complete_input_spanned_tokens() {
    let tokens = ["hello"];
    let result = parse_complete_input_spanned::<_, HelloParser>(TokenStream::new(&tokens)).unwrap();
    assert_eq!(result.span.start, 0);
    assert_eq!(result.span.end, 1);
}

#[test]
fn parse_test_parse_complete_input_spanned_bytes_uses_byte_offsets() {
    let result =
        parse_complete_input_spanned::<_, char>(BytesInput::new("\u{00E9}".as_bytes())).unwrap();
    assert_eq!(result.inner, '\u{00E9}');
    assert_eq!(result.span, SourceSpan::new(0, 2));
}

#[test]
fn parse_test_parse_complete_input_trailing_bytes_reports_byte_span() {
    let err = parse_complete_input::<_, HelloParser>(BytesInput::new("hello\u{00E9}".as_bytes()))
        .err()
        .expect("expected trailing byte input error");
    assert_eq!(err.span(), Some(SourceSpan::new(5, 7)));
}

#[test]
fn parse_test_parse_complete_input_trailing_tokens_reports_token_span() {
    let tokens = ["hello", "world"];
    let err = parse_complete_input::<_, HelloParser>(TokenStream::new(&tokens))
        .err()
        .expect("expected trailing token input error");
    assert_eq!(err.span(), Some(SourceSpan::new(1, 2)));
}

#[test]
fn parse_test_with_parse_offset_scope_if_missing_reuses_existing_scope() {
    let text = "abcdef";
    let input = StrInput::new(text);
    let (_, sub) = <(char, char)>::parse(input).unwrap();
    let mut context = ParseOffsetContext::new();

    with_parse_offset_scope(&mut context, input, |context| {
        let roots_before = context.root_count();
        with_parse_offset_scope_if_missing(context, sub, |context| {
            assert_eq!(context.root_count(), roots_before);
            assert_eq!(current_parse_offset(context, sub), 2);
        });
        assert_eq!(context.root_count(), roots_before);
    });

    assert_eq!(context.root_count(), 0);
}

#[test]
fn parse_test_with_parse_offset_scope_if_missing_pushes_when_unscoped() {
    let input = StrInput::new("abcdef");
    let (_, sub) = <(char, char)>::parse(input).unwrap();
    let mut context = ParseOffsetContext::new();

    with_parse_offset_scope_if_missing(&mut context, sub, |context| {
        assert_eq!(context.root_count(), 1);
        assert_eq!(current_parse_offset(context, sub), 0);
    });

    assert_eq!(context.root_count(), 0);
}

#[test]
fn parse_test_current_parse_offset_prefers_innermost_scope() {
    let input = StrInput::new("abcdef");
    let (_, after_two) = <(char, char)>::parse(input).unwrap();
    let (_, end) = <(char, char, char)>::parse(after_two).unwrap();
    let inner = after_two.slice_to(end).unwrap();
    let (_, inner_tail) = char::parse(inner).unwrap();
    let mut context = ParseOffsetContext::new();

    with_parse_offset_scope(&mut context, input, |context| {
        assert_eq!(current_parse_offset(context, inner), 2);

        with_parse_offset_scope(context, inner, |context| {
            assert_eq!(current_parse_offset(context, inner), 0);
            assert_eq!(current_parse_offset(context, inner_tail), 1);
        });

        assert_eq!(current_parse_offset(context, inner_tail), 3);
    });
}

#[test]
fn parse_test_parse_complete_tracks_nested_span_offset() {
    type Parser = And<Ws<i64>, Span<Ws<KwNull>>>;
    let result = parse_complete::<Parser>("42 null").unwrap();
    let null = result.right;
    assert_eq!(null.span, SourceSpan::new(2, 7));
}

#[test]
fn parse_test_parse_complete_tracks_error_offset() {
    type Parser = And<Ws<i64>, Ws<KwNull>>;
    let err = parse_complete::<Parser>("42 nope").unwrap_err();
    assert_eq!(err.span(), Some(SourceSpan::point(3)));
}

#[test]
fn parse_test_parse_complete_tracks_eof_after_partial_consumption() {
    type Parser = And<char, char>;
    let err: ParseError = parse_complete::<Parser>("a").unwrap_err();
    assert_eq!(err.span(), Some(SourceSpan::point(1)));
}

struct Recursive {
    value: Ws<i64>,
    inner: Option<Nested<Recursive>>,
}

impl<'a> Parse<'a, StrInput<'a>> for Recursive {
    fn parse_with_context(
        input: StrInput<'a>,
        context: &mut ParseOffsetContext,
    ) -> typeward::error::ParseResult<(Self, StrInput<'a>)> {
        let (value, remaining) = Ws::<i64>::parse_with_context(input, context)?;
        let (inner, remaining) = Option::<Nested<Recursive>>::parse_with_context(remaining, context)?;
        Ok((Recursive { value, inner }, remaining))
    }
}

#[test]
fn test_nested_parses_recursive() {
    let (parsed, remaining) = Recursive::parse(StrInput::new("1 2 3")).unwrap();
    assert_eq!(parsed.value.0, 1);
    let inner1 = parsed.inner.unwrap().into_inner();
    assert_eq!(inner1.value.0, 2);
    let inner2 = inner1.inner.unwrap().into_inner();
    assert_eq!(inner2.value.0, 3);
    assert!(inner2.inner.is_none());
    assert!(remaining.trim_start().is_empty());
}
