use std::borrow::Cow;

use typeward::error::{preview_input, ParseError, SourceSpan, DEFAULT_INPUT_PREVIEW};

#[test]
fn test_error_display_unexpected_token() {
    let err = ParseError::UnexpectedToken { expected: "let", found: "foo".to_string() };
    assert_eq!(err.display_string(), "unexpected token: expected 'let', found 'foo'");
}

#[test]
fn test_error_display_eof() {
    let err = ParseError::UnexpectedEOF;
    assert_eq!(err.display_string(), "unexpected end of input");
}

#[test]
fn test_error_display_custom() {
    let err = ParseError::custom("something went wrong");
    assert_eq!(err.display_string(), "something went wrong");
}

#[test]
fn test_error_display_with_span() {
    let err = ParseError::custom("something went wrong").with_span(SourceSpan::from(3..6));
    assert_eq!(err.display_string(), "something went wrong at offsets 3..6");
}

#[test]
fn custom_at_attaches_span() {
    let err = ParseError::custom_at("bad digit", SourceSpan::new(4, 5));
    assert_eq!(err.span(), Some(SourceSpan::new(4, 5)));
    assert_eq!(err.display_string(), "bad digit at offsets 4..5");
}

#[test]
fn test_preview_input_truncates_long_values() {
    let input = "abcdefghijklmnopqrstuvwxyz";
    let preview = preview_input(input, 5);
    assert_eq!(preview, "abcde...");
}

#[test]
fn test_preview_input_keeps_short_values() {
    let input = "short";
    let preview = preview_input(input, 10);
    assert_eq!(preview, "short");
}

#[test]
fn test_error_custom() {
    let err = ParseError::custom("test error");
    assert_eq!(err, ParseError::Custom(Cow::Borrowed("test error")));
}

#[test]
fn test_error_span_accessors() {
    let err = ParseError::UnexpectedEOF.with_span(SourceSpan::from(10));
    assert_eq!(err.span(), Some(SourceSpan::point(10)));
    assert_eq!(err.root_cause(), &ParseError::UnexpectedEOF);
}

#[test]
fn test_error_farthest_prefers_later_span() {
    let left = ParseError::custom("left").with_span(SourceSpan::from(3));
    let right = ParseError::custom("right").with_span(SourceSpan::from(7));
    assert_eq!(left.farthest(right.clone()), right);
}

#[test]
fn test_error_farthest_prefers_spanned_error() {
    let left = ParseError::custom("left").with_span(SourceSpan::from(3));
    let right = ParseError::custom("right");
    assert_eq!(left.clone().farthest(right), left);
}

#[test]
fn test_error_farthest_prefers_other_on_tie() {
    let left = ParseError::custom("left").with_span(SourceSpan::from(3..5));
    let right = ParseError::custom("right").with_span(SourceSpan::from(3..5));
    assert_eq!(left.farthest(right.clone()), right);
}

#[test]
fn test_source_span_line_col() {
    let source = "a\nxyz\nrest";
    let span = SourceSpan::point(4);
    assert_eq!(span.line_col(source), (2, 3));
}

#[test]
fn test_fatal_constructor_marks_is_fatal() {
    let err = ParseError::fatal("boom");
    assert!(err.is_fatal());
    assert_eq!(err.root_cause(), &ParseError::Custom(Cow::Borrowed("boom")));
}

#[test]
fn test_into_fatal_is_idempotent() {
    let once = ParseError::custom("boom").into_fatal();
    let twice = once.clone().into_fatal();
    assert_eq!(once, twice);
    assert!(twice.is_fatal());
}

#[test]
fn test_fatal_span_is_transparent_either_way() {
    let span = SourceSpan::point(7);
    let a = ParseError::custom("x").with_span(span).into_fatal();
    let b = ParseError::fatal("x").with_span(span);
    assert_eq!(a.span(), Some(span));
    assert_eq!(b.span(), Some(span));
    assert!(a.is_fatal());
    assert!(b.is_fatal());
}

#[test]
fn test_unexpected_token_constructor_truncates_found() {
    let long = "x".repeat(DEFAULT_INPUT_PREVIEW + 50);
    let err = ParseError::unexpected_token("literal", &long);
    match err {
        ParseError::UnexpectedToken { found, .. } => {
            assert!(found.ends_with("..."));
            assert!(found.len() < long.len());
        },
        other => panic!("unexpected variant: {other:?}"),
    }
}

#[test]
fn test_expected_one_of_constructor_dedupes_expected_tokens() {
    let err = ParseError::expected_one_of(&["let", "if", "let"], "value");
    match err {
        ParseError::ExpectedOneOf { mut expected, .. } => {
            expected.sort();
            assert_eq!(expected, vec!["if", "let"]);
        },
        other => panic!("unexpected variant: {other:?}"),
    }
}

#[test]
fn test_render_with_source_includes_line_context() {
    let source = "let alpha = 1;\nlet beta = ;\n";
    let err = ParseError::custom("expected expression").with_span(SourceSpan::from(25));
    let rendered = err.render_with_source(source);
    assert!(rendered.contains("line 2, column 11"));
    assert!(rendered.contains("2 | let beta = ;"));
    assert!(rendered.contains("^"));
}

#[test]
fn source_span_compares_with_ranges() {
    assert_eq!(SourceSpan::new(3, 6), 3..6);
    assert_ne!(SourceSpan::new(3, 6), 3..7);
}

#[test]
fn with_span_keeps_span_through_fatal_wrapper() {
    let e = ParseError::custom("x").with_span(SourceSpan::point(7)).into_fatal();
    assert_eq!(e.span(), Some(SourceSpan::point(7)));
    let r = e.with_span(SourceSpan::point(9));
    assert_eq!(r.span(), Some(SourceSpan::point(7)));
    assert!(r.is_fatal());
    let unspanned = ParseError::fatal("y").with_span(SourceSpan::point(3));
    assert_eq!(unspanned.span(), Some(SourceSpan::point(3)));
}
