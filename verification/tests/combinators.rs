use typeward::combinators::{
    DelimNested, SpanExt, Trim,
    Alt, And, AndIs, Count, Cut, Delimited, DelimitedExact, Ignore, IgnoreMany, IgnoreMany1,
    IntoMap, Keyword, LeftAssoc, MapFunction, Mapped, Not, Or, Peek, Separated, Separated0, Span,
    Ws, WsExt,
};
use typeward::error::{ParseError, SourceSpan};
use typeward::input::{BytesInput, Input, StrInput};
use typeward::literals::{
    Comma, False, KwNull, KwTrue, LBracket, LParen, Null, Plus, RBracket, RParen, True,
};
use typeward::parse::{parse_complete, Parse, ParseOffsetContext};
use typeward::primitives::{
    AlphaNumStr, AlphaNumString, AlphaStr, AlphaString, IdentifierString, TakeTillToken,
};
use typeward::token::Token;

#[derive(Debug, Clone, Copy, PartialEq, Eq, Default)]
struct LowerA;

impl Token for LowerA {
    fn value() -> &'static str {
        "a"
    }

    fn token() -> Self {
        LowerA
    }
}

fn s(text: &str) -> StrInput<'_> {
    StrInput::new(text)
}

#[test]
fn alt_test_alt() {
    let (result, rest) = Alt::<i64, AlphaString>::parse(s("42")).unwrap();
    assert_eq!(result, Alt::Left(42));
    assert_eq!(rest.as_str(), "");
}

#[test]
fn alt_test_alt_second() {
    let (result, rest) = Alt::<i64, AlphaString>::parse(s("hello")).unwrap();
    assert_eq!(result, Alt::Right(AlphaString { value: "hello".to_string() }));
    assert_eq!(rest.as_str(), "");
}

#[test]
fn alt_test_alt_nested() {
    let (result, rest) = Alt::<i64, Alt<AlphaString, IdentifierString>>::parse(s("42")).unwrap();
    assert_eq!(result, Alt::Left(42));
    assert_eq!(rest.as_str(), "");
}

#[test]
fn alt_test_alt_helpers() {
    let value: Alt<i64, AlphaString> = Alt::Left(42);
    assert!(value.is_left());
    assert!(!value.is_right());
    assert_eq!(value.left().copied(), Some(42));
    assert_eq!(value.right(), None);
    let mapped = value.map_left(|n| n.to_string());
    assert_eq!(mapped, Alt::Left("42".to_string()));
    let rendered = mapped.either(|n| format!("left-{n}"), |s| format!("right-{}", s.value));
    assert_eq!(rendered, "left-42");
}

fn render_alt(result: Alt<i64, Alt<AlphaString, IdentifierString>>) -> String {
    match result {
        Alt::Left(n) => format!("num:{n}"),
        Alt::Right(Alt::Left(alpha)) => format!("alpha:{}", alpha.value),
        Alt::Right(Alt::Right(ident)) => format!("ident:{}", ident.value),
    }
}

#[test]
fn alt_test_alt_match_nested_right_branch() {
    let (result, _) = Alt::<i64, Alt<AlphaString, IdentifierString>>::parse(s("_name")).unwrap();
    assert_eq!(render_alt(result), "ident:_name");
}

#[test]
fn alt_test_alt_match_nested_middle_branch() {
    let (result, _) = Alt::<i64, Alt<AlphaString, IdentifierString>>::parse(s("hello")).unwrap();
    assert_eq!(render_alt(result), "alpha:hello");
}

#[test]
fn or_test_alt() {
    let (result, rest) = Or::<i64, AlphaString>::parse(s("42")).unwrap();
    assert_eq!(result, Or::Left(42));
    assert_eq!(rest.as_str(), "");
}

#[test]
fn or_test_alt_second() {
    let (result, rest) = Or::<i64, AlphaString>::parse(s("hello")).unwrap();
    assert_eq!(result, Or::Right(AlphaString { value: "hello".to_string() }));
    assert_eq!(rest.as_str(), "");
}

#[test]
fn or_test_alt_nested() {
    let (result, rest) = Or::<i64, Or<AlphaString, IdentifierString>>::parse(s("42")).unwrap();
    assert_eq!(result, Or::Left(42));
    assert_eq!(rest.as_str(), "");
}

#[test]
fn or_test_alt_helpers() {
    let value: Or<i64, AlphaString> = Or::Left(42);
    assert!(value.is_left());
    assert!(!value.is_right());
    assert_eq!(value.left().copied(), Some(42));
    assert_eq!(value.right(), None);
    let mapped = value.map_left(|n| n.to_string());
    assert_eq!(mapped, Or::Left("42".to_string()));
    let rendered = mapped.either(|n| format!("left-{n}"), |s| format!("right-{}", s.value));
    assert_eq!(rendered, "left-42");
}

fn render_or(result: Or<i64, Or<AlphaString, IdentifierString>>) -> String {
    match result {
        Or::Left(n) => format!("num:{n}"),
        Or::Right(Or::Left(alpha)) => format!("alpha:{}", alpha.value),
        Or::Right(Or::Right(ident)) => format!("ident:{}", ident.value),
    }
}

#[test]
fn or_test_alt_match_nested_right_branch() {
    let (result, _) = Or::<i64, Or<AlphaString, IdentifierString>>::parse(s("_name")).unwrap();
    assert_eq!(render_or(result), "ident:_name");
}

#[test]
fn or_test_alt_match_nested_middle_branch() {
    let (result, _) = Or::<i64, Or<AlphaString, IdentifierString>>::parse(s("hello")).unwrap();
    assert_eq!(render_or(result), "alpha:hello");
}

#[test]
fn test_alt_error_prefers_farthest_span() {
    type AltType = Or<And<i64, Ws<KwNull>>, And<i64, And<Ws<KwTrue>, Ws<KwNull>>>>;
    let err = parse_complete::<AltType>("42 true nope").unwrap_err();
    assert_eq!(err.span(), Some(SourceSpan::point(8)));
}

#[test]
fn test_alt_error_tie_merges_expected_tokens() {
    let err = parse_complete::<Or<True, False>>("maybe").unwrap_err();
    assert!(matches!(
        err.root_cause(),
        ParseError::ExpectedOneOf { expected, .. }
            if expected.contains(&"true") && expected.contains(&"false")
    ));
}

#[test]
fn test_alt_error_prefers_spanned_over_unspanned() {
    let err = parse_complete::<Or<i64, Null>>("abc").unwrap_err();
    assert_eq!(err.span(), Some(SourceSpan::point(0)));
    assert!(matches!(err.root_cause(), ParseError::UnexpectedToken { expected: "null", .. }));
}

#[derive(Debug, Clone, Copy, PartialEq, Eq)]
struct UnspannedError;

impl<'a> Parse<'a, StrInput<'a>> for UnspannedError {
    fn parse_with_context(
        _input: StrInput<'a>,
        _context: &mut ParseOffsetContext,
    ) -> typeward::error::ParseResult<(Self, StrInput<'a>)> {
        Err(ParseError::custom("unspanned"))
    }
}

#[test]
fn test_alt_error_keeps_first_when_second_is_unspanned() {
    let err = parse_complete::<Or<Null, UnspannedError>>("abc").unwrap_err();
    assert_eq!(err.span(), Some(SourceSpan::point(0)));
    assert!(matches!(err.root_cause(), ParseError::UnexpectedToken { expected: "null", .. }));
}

#[test]
fn unpack_and_two_values() {
    let value = And::new(1_u8, 2_u16);
    let tuple: (u8, u16) = value.into_parts();
    assert_eq!(tuple, (1, 2));
}

#[test]
fn unpack_and_three_values() {
    let value = And::new(1_u8, And::new(2_u16, 3_u32));
    let tuple: (u8, u16, u32) = value.flatten();
    assert_eq!(tuple, (1, 2, 3));
}

#[test]
fn test_and_is() {
    let result = AndIs::<&str, AlphaNumStr>::parse(s("abc123"));
    assert!(result.is_ok());
    let (and_is, remaining) = result.unwrap();
    assert_eq!(and_is.into_inner(), "abc123");
    assert_eq!(remaining.as_str(), "");
}

#[test]
fn test_and_is_fails() {
    let result = AndIs::<&str, AlphaStr>::parse(s("abc123"));
    assert!(result.is_err());
}

#[test]
fn cut_promotes_recoverable_errors_to_fatal() {
    let err = Cut::<Ws<KwNull>>::parse(s("nope")).unwrap_err();
    assert!(err.is_fatal());
}

#[test]
fn cut_commits_alternative_branch() {
    type Parser = Or<And<KwTrue, Cut<Ws<KwNull>>>, KwTrue>;
    let err = Parser::parse(s("true nope")).unwrap_err();
    assert!(err.is_fatal());
}

#[test]
fn cut_commits_repetition_items() {
    type Item = Cut<And<Ws<i64>, Ws<KwNull>>>;
    let err = Vec::<Item>::parse(s("1 null 2 nope")).unwrap_err();
    assert!(err.is_fatal());
    assert_eq!(err.span(), Some(SourceSpan::point(9)));
}

#[test]
fn test_delimited_parentheses() {
    let (result, rest) = Delimited::<LParen, RParen, i64>::parse(s("(42)")).unwrap();
    assert_eq!(result.inner, 42);
    assert_eq!(rest.as_str(), "");
}

#[test]
fn test_delimited_with_trailing() {
    let (result, rest) = Delimited::<LParen, RParen, i64>::parse(s("(42) rest")).unwrap();
    assert_eq!(result.inner, 42);
    assert_eq!(rest.as_str(), " rest");
}

#[test]
fn test_delimited_brackets() {
    let (result, rest) =
        Delimited::<LBracket, RBracket, AlphaString>::parse(s("[hello]")).unwrap();
    assert_eq!(result.inner.value, "hello");
    assert_eq!(rest.as_str(), "");
}

#[test]
fn test_delimited_nested() {
    let (outer, rest) =
        Delimited::<LParen, RParen, Delimited<LParen, RParen, i64>>::parse(s("((42))")).unwrap();
    assert_eq!(outer.inner.inner, 42);
    assert_eq!(rest.as_str(), "");
}

#[test]
fn test_delimited_missing_start() {
    assert!(Delimited::<LParen, RParen, i64>::parse(s("42)")).is_err());
}

#[test]
fn test_delimited_missing_end() {
    assert!(Delimited::<LParen, RParen, i64>::parse(s("(42")).is_err());
}

#[test]
fn test_ignore() {
    let result = Ignore::<AlphaStr>::parse(s("abc")).unwrap();
    assert_eq!(result.0, Ignore::new());
    assert_eq!(result.1.as_str(), "");
}

#[test]
fn test_ignore_many() {
    let result = IgnoreMany::<LowerA>::parse(s("aaab")).unwrap();
    assert_eq!(result.0, IgnoreMany::new());
    assert_eq!(result.1.as_str(), "b");
}

#[test]
fn test_ignore_many1() {
    let result = IgnoreMany1::<LowerA>::parse(s("aaab")).unwrap();
    assert_eq!(result.0, IgnoreMany1::new());
    assert_eq!(result.1.as_str(), "b");
    assert!(IgnoreMany1::<LowerA>::parse(s("b")).is_err());
}

#[test]
fn count_counts_items_until_failure() {
    let (count, rest) = Count::<LowerA>::parse(s("aaab")).unwrap();
    assert_eq!(count.count, 3);
    assert_eq!(rest.as_str(), "b");
}

#[test]
fn keyword_accepts_boundary_end_of_input() {
    let (kw, rest) = KwNull::parse(s("null")).unwrap();
    assert_eq!(kw, Keyword::new(Null));
    assert_eq!(rest.as_str(), "");
}

#[test]
fn keyword_accepts_boundary_punctuation() {
    let (kw, rest) = KwNull::parse(s("null,")).unwrap();
    assert_eq!(kw, Keyword::new(Null));
    let (_comma, rest) = Comma::parse(rest).unwrap();
    assert_eq!(rest.as_str(), "");
}

#[test]
fn keyword_rejects_identifier_continuation() {
    let err = KwNull::parse(s("nullish")).unwrap_err();
    assert_eq!(err.span(), Some(SourceSpan::new(0, 5)));
    assert!(err.display_string().contains("keyword 'null' must be followed by a boundary"));
}

#[test]
fn test_left_assoc_single_operand() {
    let (parsed, rest) = LeftAssoc::<Plus, u32>::parse(s("42")).unwrap();
    assert!(rest.is_empty());
    assert_eq!(parsed, LeftAssoc::Rhs(42));
}

#[test]
fn test_left_assoc_two_operands() {
    let (parsed, rest) = LeftAssoc::<Plus, u32>::parse(s("1+2")).unwrap();
    assert!(rest.is_empty());
    match parsed {
        LeftAssoc::Binary { left, operator: _, right } => {
            assert_eq!(*left, LeftAssoc::Rhs(1));
            assert_eq!(right, 2);
        },
        _ => panic!("Expected Binary variant"),
    }
}

#[test]
fn test_left_assoc_three_operands() {
    let (parsed, rest) = LeftAssoc::<Plus, u32>::parse(s("1+2+3")).unwrap();
    assert!(rest.is_empty());
    match &parsed {
        LeftAssoc::Binary { left, operator: _, right } => {
            assert_eq!(*right, 3);
            match left.as_ref() {
                LeftAssoc::Binary { left, operator: _, right } => {
                    assert_eq!(**left, LeftAssoc::Rhs(1));
                    assert_eq!(*right, 2);
                },
                _ => panic!("Expected nested Binary for left operand"),
            }
        },
        _ => panic!("Expected Binary variant"),
    }
}

#[test]
fn test_left_assoc_four_operands() {
    let (parsed, rest) = LeftAssoc::<Plus, u32>::parse(s("1+2+3+4")).unwrap();
    assert!(rest.is_empty());
    let mut current = &parsed;
    for expected_right in [4, 3, 2] {
        match current {
            LeftAssoc::Binary { left, operator: _, right } => {
                assert_eq!(*right, expected_right);
                current = left;
            },
            _ => panic!("Expected Binary variant"),
        }
    }
    assert_eq!(*current, LeftAssoc::Rhs(1));
}

#[test]
fn test_left_assoc_with_trailing_input() {
    let (parsed, rest) = LeftAssoc::<Plus, u32>::parse(s("1+2 rest")).unwrap();
    assert_eq!(rest.as_str(), " rest");
    match parsed {
        LeftAssoc::Binary { left, operator: _, right } => {
            assert_eq!(*left, LeftAssoc::Rhs(1));
            assert_eq!(right, 2);
        },
        _ => panic!("Expected Binary variant"),
    }
}

#[test]
fn test_left_assoc_empty_input_fails() {
    assert!(LeftAssoc::<Plus, u32>::parse(s("")).is_err());
}

#[test]
fn test_left_assoc_operator_without_right_operand_fails() {
    assert!(LeftAssoc::<Plus, u32>::parse(s("1+")).is_err());
}

#[test]
fn test_left_assoc_operator_without_left_operand_fails() {
    assert!(LeftAssoc::<Plus, u32>::parse(s("+1")).is_err());
}

fn count_depth<O, R>(node: &LeftAssoc<O, R>) -> usize {
    match node {
        LeftAssoc::Rhs(_) => 1,
        LeftAssoc::Binary { left, .. } => 1 + count_depth(left),
    }
}

#[test]
fn test_left_assoc_preserves_left_associativity() {
    let (parsed, _) = LeftAssoc::<Plus, u32>::parse(s("1+2+3+4+5")).unwrap();
    assert_eq!(count_depth(&parsed), 5);
}

#[test]
fn test_left_assoc_with_large_numbers() {
    let input = format!("{}+{}+{}", u32::MAX, u32::MAX - 1, u32::MAX - 2);
    let (parsed, rest) = LeftAssoc::<Plus, u32>::parse(s(input.as_str())).unwrap();
    assert!(rest.is_empty());
    match &parsed {
        LeftAssoc::Binary { left, operator: _, right } => {
            assert_eq!(*right, u32::MAX - 2);
            match left.as_ref() {
                LeftAssoc::Binary { left, operator: _, right } => {
                    assert_eq!(**left, LeftAssoc::Rhs(u32::MAX));
                    assert_eq!(*right, u32::MAX - 1);
                },
                _ => panic!("Expected nested Binary"),
            }
        },
        _ => panic!("Expected Binary variant"),
    }
}

#[test]
fn test_map() {
    let (result, rest) = Mapped::<u16, u32, IntoMap>::parse(s("123")).unwrap();
    assert_eq!(*result, 123);
    assert_eq!(rest.as_str(), "");
}

#[test]
fn wrappers_deref_to_their_values() {
    let (ws, _) = Ws::<i64>::parse(s(" 5")).unwrap();
    assert_eq!(*ws, 5);
    let (cut, _) = Cut::<i64>::parse(s("6")).unwrap();
    assert_eq!(*cut, 6);
    let (spanned, _) = Span::<i64>::parse(s("7")).unwrap();
    assert_eq!(*spanned, 7);
    assert!(ws == 5 && ws != 4);
    assert!(cut == 6 && cut != 7);
    assert!(spanned == 7 && spanned != 8);
    let (mapped, _) = Mapped::<u16, u32>::parse(s("9")).unwrap();
    assert!(mapped == 9u32 && mapped != 10u32);
}

#[test]
fn mapped_into_inner_converts_back() {
    let (result, _) = Mapped::<u64, u64>::parse(s("77")).unwrap();
    assert_eq!(result.into_inner(), 77u64);
}

struct DoubleMap;

impl MapFunction<u16, u32> for DoubleMap {
    fn map(value: u16) -> u32 {
        (value as u32) * 2
    }
}

#[test]
fn test_map_custom() {
    let (result, rest) = Mapped::<u16, u32, DoubleMap>::parse(s("123")).unwrap();
    assert_eq!(*result.value(), 246);
    assert_eq!(rest.as_str(), "");
}

#[test]
fn test_not() {
    let (result, rest) = Not::<i64, AlphaString>::parse(s("42")).unwrap();
    assert_eq!(result.value, 42);
    assert_eq!(rest.as_str(), "");
}

#[test]
fn test_not_fail() {
    assert!(Not::<AlphaNumString, i64>::parse(s("123")).is_err());
}

#[test]
fn test_peek() {
    let (result, rest) = Peek::<i64>::parse(s("42")).unwrap();
    assert_eq!(result.value, 42);
    assert_eq!(rest.as_str(), "42");
}

#[test]
fn test_peek_and() {
    let (result, rest) = And::<i64, Peek<AlphaString>>::parse(s("42abc")).unwrap();
    assert_eq!(result.left, 42);
    assert_eq!(result.right.value.value, "abc");
    assert_eq!(rest.as_str(), "abc");
}

#[test]
fn separated_parses_items_and_separators() {
    let (result, rest) = Separated::<AlphaString, Comma>::parse(s("a,b,c;")).unwrap();
    assert_eq!(result.items().len(), 3);
    assert_eq!(result.separators().len(), 2);
    assert_eq!(rest.as_str(), ";");
}

#[test]
fn separated_rejects_non_consuming_item() {
    assert!(Separated::<(), char>::parse(s("abc")).is_err());
}

#[test]
fn separated_rejects_non_consuming_separator() {
    assert!(Separated::<char, ()>::parse(s("abc")).is_err());
}

#[test]
fn separated0_parses_empty_sequence() {
    let (result, rest) = Separated0::<AlphaString, Comma>::parse(s(";")).unwrap();
    assert!(result.items().is_empty());
    assert!(result.separators().is_empty());
    assert_eq!(rest.as_str(), ";");
}

#[test]
fn separated0_parses_non_empty_sequence() {
    let (result, rest) = Separated0::<AlphaString, Comma>::parse(s("a,b,c;")).unwrap();
    assert_eq!(result.items().len(), 3);
    assert_eq!(result.separators().len(), 2);
    assert_eq!(rest.as_str(), ";");
}

#[test]
fn span_wraps_successful_parse() {
    let (spanned, rest) = Span::<Ws<i64>>::parse(s("  -12x")).unwrap();
    assert_eq!(spanned.inner.into_inner(), -12);
    assert_eq!(spanned.span, SourceSpan::new(0, 5));
    assert_eq!(rest.as_str(), "x");
}

#[test]
fn span_attaches_error_location() {
    let err = Span::<i64>::parse(s("abc")).unwrap_err();
    assert_eq!(err.span(), Some(SourceSpan::point(0)));
}

#[test]
fn extension_trait_parses_spanned() {
    let (spanned, rest) = bool::parse_spanned(s("true false")).unwrap();
    assert!(spanned.inner);
    assert_eq!(spanned.span, SourceSpan::new(0, 4));
    assert_eq!(rest.as_str(), " false");
}

#[test]
fn parse_spanned_tracks_nested_offsets_without_complete_parse() {
    type Parser = And<Ws<i64>, Span<Ws<Null>>>;
    let (spanned, rest) =
        typeward::combinators::span::parse_spanned::<_, Parser>(s("42 null!")).unwrap();
    assert_eq!(spanned.inner.right.span, SourceSpan::new(2, 7));
    assert_eq!(rest.as_str(), "!");
}

#[test]
fn parse_spanned_tracks_byte_offsets_without_complete_parse() {
    type Parser = And<Ws<i64>, Span<Ws<Null>>>;
    let (spanned, rest) =
        typeward::combinators::span::parse_spanned::<_, Parser>(BytesInput::new(b"42 null!"))
            .unwrap();
    assert_eq!(spanned.span, SourceSpan::new(0, 7));
    assert_eq!(spanned.inner.right.span, SourceSpan::new(2, 7));
    assert_eq!(rest.as_bytes(), b"!");
}

#[test]
fn ws_consumes_leading_whitespace() {
    let (parsed, rest) = Ws::<i64>::parse(s("   42 tail")).unwrap();
    assert_eq!(parsed.into_inner(), 42);
    assert_eq!(rest.as_str(), " tail");
}

#[test]
fn span_map_keeps_span() {
    let (spanned, _) = Span::<i64>::parse(s("12 rest")).unwrap();
    let doubled = spanned.map(|v| v * 2);
    assert_eq!(doubled.inner, 24);
    assert_eq!(doubled.span, SourceSpan::new(0, 2));
}

#[test]
fn parse_ws_wraps_value_after_whitespace() {
    let (parsed, rest) = i64::parse_ws(s("  \t7;")).unwrap();
    assert_eq!(parsed.into_inner(), 7);
    assert_eq!(rest.as_str(), ";");
    assert!(bool::parse_ws(s("  maybe")).is_err());
}

#[test]
fn test_delimited_exact_keeps_inner_whitespace_out() {
    let (result, rest) = DelimitedExact::<LParen, RParen, Ws<i64>>::parse(s("(  42)")).unwrap();
    assert_eq!(result.inner.0, 42);
    assert_eq!(rest.as_str(), "");
}

#[test]
fn unpack_and_four_values() {
    let value = And::new(1_u8, And::new(2_u16, And::new(3_u32, 4_u64)));
    let tuple: (u8, u16, u32, u64) =
        (value.left, value.right.left, value.right.right.left, value.right.right.right);
    assert_eq!(tuple, (1, 2, 3, 4));
}

#[test]
fn nested_parses_balanced_parentheses() {
    let (parsed, rest) = DelimNested::<LParen, RParen, i64>::parse(s("(42)tail")).unwrap();
    assert_eq!(parsed.inner, 42);
    assert_eq!(rest.as_str(), "tail");
}

#[test]
fn nested_parses_inner_with_nested_delimiters() {
    let (parsed, rest) = DelimNested::<LParen, RParen, String>::parse(s("(a(b)c)tail")).unwrap();
    assert_eq!(parsed.inner, "a(b)c");
    assert_eq!(rest.as_str(), "tail");
}

#[test]
fn nested_rejects_unbalanced_input() {
    assert!(DelimNested::<LParen, RParen, String>::parse(s("(a(b)c")).is_err());
}

#[test]
fn test_delimited_exact_preserves_inner_whitespace() {
    let (result, rest) =
        DelimitedExact::<LParen, RParen, TakeTillToken<RParen>>::parse(s("(  42)")).unwrap();
    assert_eq!(result.inner.value, "  42");
    assert_eq!(rest.as_str(), "");
}

#[test]
fn test_trim() {
    let result = Trim::<AlphaStr>::parse(StrInput::new("  abc  ")).unwrap();
    assert_eq!(result.0.value().value, "abc");
    assert_eq!(result.1.as_str(), "");
}
