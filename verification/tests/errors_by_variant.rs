use typeward::combinators::{AndIs, DelimNested, Keyword, LeftAssoc, Not, Separated};
use typeward::error::{ParseError, SourceSpan};
use typeward::input::{Input, StrInput, TokenStream};
use typeward::literals::{Comma, LParen, Null, Plus, RParen};
use typeward::parse::{parse_complete, Parse};
use typeward::primitives::{AlphaStr, AlphaString};
use typeward::token::Token;

fn s(text: &str) -> StrInput<'_> {
    StrInput::new(text)
}

#[derive(Debug, Clone, Copy, PartialEq, Eq, Default)]
struct Empty;

impl Token for Empty {
    fn value() -> &'static str {
        ""
    }

    fn token() -> Self {
        Empty
    }
}

#[derive(Debug, Clone, Copy, PartialEq, Eq, Default)]
struct Bar;

impl Token for Bar {
    fn value() -> &'static str {
        "|"
    }

    fn token() -> Self {
        Bar
    }
}

#[test]
fn delim_nested_rejects_empty_delimiters() {
    let err = DelimNested::<Empty, RParen, i64>::parse(s("1)")).unwrap_err();
    assert_eq!(err.display_string(), "nested delimiters must be non-empty tokens");
}

#[test]
fn delim_nested_rejects_identical_delimiters() {
    let err = DelimNested::<Bar, Bar, i64>::parse(s("|1|")).unwrap_err();
    assert_eq!(err.display_string(), "nested delimiters must not be identical tokens");
}

#[test]
fn delim_nested_reports_missing_close_as_eof() {
    let err = DelimNested::<LParen, RParen, i64>::parse(s("(1")).unwrap_err();
    assert_eq!(err, ParseError::UnexpectedEOF);
}

#[test]
fn and_is_reports_partial_validation() {
    let err = AndIs::<&str, AlphaStr>::parse(s("ab1")).unwrap_err();
    assert_eq!(
        err.display_string(),
        "AndIs validator parser did not consume the full parsed segment"
    );
}

#[test]
fn separated_reports_dangling_separator() {
    let err = Separated::<AlphaString, Comma>::parse(s("a,")).unwrap_err();
    assert_eq!(err.display_string(), "expected an item but found a separator at 'a,'");
}

#[test]
fn not_reports_forbidden_match() {
    let err = Not::<AlphaString, i64>::parse(s("12")).unwrap_err();
    assert_eq!(
        err.display_string(),
        "expected a value but matched the forbidden pattern at '12'"
    );
}

#[test]
fn left_assoc_without_operands_reports_a_missing_item() {
    let err = LeftAssoc::<Plus, u32>::parse(s("x")).unwrap_err();
    assert_eq!(err.display_string(), "expected an item but found a separator at 'x'");
}

#[test]
fn parse_complete_reports_trailing_text() {
    let err = parse_complete::<Null>("null x").unwrap_err();
    assert_eq!(err.display_string(), "unexpected trailing input: 'x' at offsets 5..6");
}

#[test]
fn token_reports_unexpected_token_with_offset() {
    let err = parse_complete::<Null>("nil").unwrap_err();
    assert_eq!(
        err.root_cause(),
        &ParseError::UnexpectedToken { expected: "null", found: "nil".to_string() }
    );
    assert_eq!(err.span(), Some(SourceSpan::point(0)));
}

#[test]
fn keyword_value_is_the_token() {
    let (k, _) = Keyword::<Null>::parse(s("null")).unwrap();
    assert_eq!(*k.inner(), Null);
    assert!(k == Null);
    assert_eq!(*k, Null);
    assert_eq!(k.into_inner(), Null);
}

#[test]
fn string_parse_errors() {
    let err = String::parse(s("")).unwrap_err();
    assert_eq!(err.display_string(), "expected string, found end of input");
    let err = String::parse(s(" x")).unwrap_err();
    assert_eq!(err.display_string(), "expected string, found ' x'");
}

#[test]
fn slicing_errors() {
    let a = s("abc");
    let (_, rest) = <(char, char)>::parse(a).unwrap();
    let err = rest.slice_to(a).unwrap_err();
    assert_eq!(err.display_string(), "invalid input bounds while slicing string input");
    let tokens = ["a", "b"];
    let t = TokenStream::new(&tokens);
    let (_, later) = <char>::parse(t).unwrap();
    let err = later.slice_to(t).unwrap_err();
    assert_eq!(err.display_string(), "invalid input bounds while slicing token input");
}

#[test]
fn result_parse_captures_errors() {
    let (r, rest) = Result::<i64, ParseError>::parse(s("x")).unwrap();
    assert!(r.is_err());
    assert_eq!(rest.as_str(), "x");
    let (r, _) = Result::<i64, ParseError>::parse(s("7")).unwrap();
    assert_eq!(r, Ok(7));
}
