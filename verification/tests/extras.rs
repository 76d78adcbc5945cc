use typeward::collections::{Many1, Repeat};
use typeward::combinators::{iter, Or, SeparatedIter, SeparatedIterState, Span, Ws};
use typeward::error::{ParseError, SourceSpan};
use typeward::input::stream_window::{utf8_char_width, Located, StreamWindow};
use typeward::input::{BorrowInput, FromInputStr, Input, ReadInputBuf, StrInput, TokenStream};
use typeward::literals::{Comma, KwNull};
use typeward::parse::{parse_complete, Parse, ParseOffsetAnchor, ParseOffsetContext};
use typeward::primitives::AlphaString;

fn s(text: &str) -> StrInput<'_> {
    StrInput::new(text)
}

#[test]
fn piter_yields_items_then_stops() {
    let mut context = ParseOffsetContext::new();
    let mut it = iter::<_, char>(s("ab"), &mut context, "Chars");
    let first = it.next_item().unwrap().unwrap();
    assert_eq!(first.0, 'a');
    let second = it.next_item().unwrap().unwrap();
    assert_eq!(second.0, 'b');
    assert!(it.next_item().is_none());
}

#[test]
fn piter_rejects_non_consuming_items() {
    let mut context = ParseOffsetContext::new();
    let mut it = iter::<_, ()>(s("ab"), &mut context, "Units");
    let err = it.next_item().unwrap().unwrap_err();
    assert!(err.is_fatal());
    assert!(err.display_string().contains("parser `Units` made no progress"));
}

#[test]
fn separated_iter_alternates_items_and_separators() {
    let mut context = ParseOffsetContext::new();
    let mut it = SeparatedIter::<_, AlphaString, Comma>::new(s("a,b;"), &mut context);
    assert!(matches!(it.next_part(), Some(Ok(Or::Left(Or::Left(_))))));
    assert_eq!(it.state, SeparatedIterState::Separator);
    assert!(matches!(it.next_part(), Some(Ok(Or::Left(Or::Right(_))))));
    assert!(matches!(it.next_part(), Some(Ok(Or::Left(Or::Left(_))))));
    match it.next_part() {
        Some(Ok(Or::Right(rest))) => assert_eq!(rest.as_str(), ";"),
        _ => panic!("expected the end of the list"),
    }
    assert!(it.next_part().is_none());
}

#[test]
fn stream_window_grows_then_slides() {
    let mut w = StreamWindow::<4>::new();
    let plan = w.read_plan().unwrap();
    assert_eq!((plan.tail, plan.first_len, plan.second_len), (0, 4, 0));
    w.record_read(3);
    assert_eq!((w.start(), w.len()), (0, 3));
    let plan = w.read_plan().unwrap();
    assert_eq!((plan.tail, plan.first_len, plan.second_len), (3, 1, 0));
    w.record_read(1);
    let plan = w.read_plan().unwrap();
    assert_eq!((plan.tail, plan.first_len, plan.second_len), (0, 4, 0));
    w.record_read(2);
    assert_eq!((w.start(), w.len(), w.loaded_end()), (2, 4, 6));
    assert_eq!(w.locate(1), Located::Replayed);
    assert_eq!(w.locate(5), Located::Held(1));
    assert_eq!(w.locate(6), Located::NeedsRead);
    w.record_read(0);
    assert!(w.eof());
    assert_eq!(w.locate(6), Located::PastEnd);
}

#[test]
fn stream_window_wraps_a_read_around_the_buffer() {
    let mut w = StreamWindow::<4>::new();
    w.record_read(4);
    w.record_read(2);
    let plan = w.read_plan().unwrap();
    assert_eq!((plan.tail, plan.first_len, plan.second_len), (2, 2, 2));
}

#[test]
fn stream_window_of_no_bytes_cannot_read() {
    let w = StreamWindow::<0>::new();
    let err = w.read_plan().unwrap_err();
    assert!(err.is_fatal());
    assert_eq!(err.root_cause(), &ParseError::custom("ReadInputStream requires a non-zero buffer size"));
}

#[test]
fn stream_replay_error_names_the_window() {
    let err = StreamWindow::<3>::replay_error();
    assert!(err.display_string().contains("stream backtracking exceeded the 3-byte replay window"));
}

#[test]
fn utf8_widths() {
    assert_eq!(utf8_char_width(b'a'), 1);
    assert_eq!(utf8_char_width(0xC3), 2);
    assert_eq!(utf8_char_width(0xE2), 3);
    assert_eq!(utf8_char_width(0xF0), 4);
    assert_eq!(utf8_char_width(0x80), 0);
}

#[test]
fn from_input_str_makes_owned_and_borrowed_values() {
    let owned: String = <String as FromInputStr>::from_input_str("abc").unwrap();
    assert_eq!(owned, "abc");
    let borrowed: &str = <&str as FromInputStr>::from_input_str("abc").unwrap();
    assert_eq!(borrowed, "abc");
    let cow: std::borrow::Cow<str> = <std::borrow::Cow<str> as FromInputStr>::from_input_str("abc").unwrap();
    assert!(matches!(cow, std::borrow::Cow::Borrowed("abc")));
}

#[test]
fn borrowed_scans_return_source_slices() {
    let (word, rest) = s("abc123 x").take_while_borrowed(typeward::text::CharClass::Alpha).unwrap();
    assert_eq!(word, "abc");
    assert_eq!(rest.as_str(), "123 x");
    let (head, rest) = s("abc123 x").take_till_borrowed(typeward::text::CharClass::Whitespace).unwrap();
    assert_eq!(head, "abc123");
    assert_eq!(rest.as_str(), " x");
}

#[test]
fn anchor_accessors() {
    let a = ParseOffsetAnchor::new(3, 4);
    assert_eq!((a.start(), a.len(), a.end(), a.is_empty()), (3, 4, 7, false));
    assert_eq!(ParseOffsetAnchor::new(usize::MAX, 2).end(), usize::MAX);
}

#[test]
fn token_stream_operations() {
    let tokens = [" ", "let", "x", "=", "1"];
    let input = TokenStream::new(&tokens);
    let trimmed = input.trim_start();
    assert_eq!(trimmed.input_len(), 4);
    assert_eq!(trimmed.display(), "let x = 1");
    let at_eq = trimmed.find("=").unwrap().unwrap();
    assert_eq!(at_eq.as_slice(), &["=", "1"]);
    let head = trimmed.slice_to(at_eq).unwrap();
    assert_eq!(head.as_slice(), &["let", "x"]);
    assert!(trimmed.strip_prefix("let").unwrap().is_some());
    assert!(trimmed.strip_prefix("le").unwrap().is_none());
    let err = trimmed.take_char().unwrap_err();
    assert_eq!(err.display_string(), "cannot parse char from multi-character token stream element");
    let (c, _) = at_eq.take_char().unwrap().unwrap();
    assert_eq!(c, '=');
}

#[test]
fn token_stream_rejects_partial_tokens() {
    let tokens = ["abc1"];
    let err = TokenStream::new(&tokens).take_while(typeward::text::CharClass::Alpha).unwrap_err();
    assert_eq!(err.display_string(), "cannot consume partial token from token stream input");
    let empty: [&str; 1] = [""];
    let err = TokenStream::new(&empty).take_char().unwrap_err();
    assert_eq!(err.display_string(), "encountered empty token in token stream");
}

#[test]
fn str_input_slicing_and_search() {
    let input = s("héllo wörld");
    let at = input.find("wö").unwrap().unwrap();
    assert_eq!(at.position(), 7);
    let head = input.slice_to(at).unwrap();
    assert_eq!(head.as_str(), "héllo ");
    let (c, rest) = input.take_char().unwrap().unwrap();
    assert_eq!(c, 'h');
    let (c, _) = rest.take_char().unwrap().unwrap();
    assert_eq!(c, 'é');
    assert_eq!(input.display(), "héllo wörld");
}

#[test]
fn bytes_input_reports_invalid_utf8() {
    let buf = ReadInputBuf::new(vec![b'a', 0xFF]);
    let err = buf.as_input().find("x").unwrap_err();
    assert!(err.display_string().starts_with("invalid UTF-8 input: "));
    assert_eq!(buf.as_input().display(), "a\u{FFFD}");
}

#[test]
fn law_fatal_is_idempotent_on_values() {
    let e = ParseError::custom("x").with_span(SourceSpan::point(2));
    let once = e.clone().into_fatal();
    assert_eq!(once.clone().into_fatal(), once);
    assert!(once.is_fatal());
    assert_eq!(once.span(), e.span());
}

#[test]
fn law_with_span_keeps_an_existing_span() {
    let e = ParseError::custom("x").with_span(SourceSpan::point(2));
    assert_eq!(e.clone().with_span(SourceSpan::point(9)), e);
}

#[test]
fn law_repetition_consumes_on_values() {
    let (items, rest) = Vec::<Ws<i64>>::parse(s("1 2 3")).unwrap();
    assert_eq!(items.len(), 3);
    assert!(rest.input_len() + items.len() <= 5);
}

#[test]
fn law_repeat_bounds_on_values() {
    let (r, _) = Repeat::<char, 1, 2>::parse(s("abc")).unwrap();
    assert_eq!(r.len(), 2);
}

#[test]
fn law_option_fails_only_fatally_on_values() {
    let (v, rest) = Option::<KwNull>::parse(s("nope")).unwrap();
    assert!(v.is_none());
    assert_eq!(rest.as_str(), "nope");
}

#[test]
fn law_span_covers_consumed_on_values() {
    let (sp, rest) = Span::<AlphaString>::parse(s("abc def")).unwrap();
    assert_eq!(sp.span, SourceSpan::new(0, 3));
    assert_eq!(rest.as_str(), " def");
}

#[test]
fn law_current_offset_innermost_on_values() {
    let result = parse_complete::<typeward::combinators::And<Ws<i64>, Span<Ws<KwNull>>>>("7  null").unwrap();
    assert_eq!(result.right.span, SourceSpan::new(1, 7));
}

#[test]
fn many1_values() {
    let (m, _) = Many1::<AlphaString>::parse(s("abc")).unwrap();
    assert!(!m.is_empty());
    assert_eq!(m.items().len(), 1);
    assert_eq!(m.into_vec()[0].value, "abc");
}

#[test]
fn expected_one_of_keeps_first_occurrence_order() {
    let e = ParseError::expected_one_of(&["b", "a", "b"], "x");
    assert_eq!(e.display_string(), "unexpected token: expected one of ['b', 'a'], found 'x'");
}

#[test]
fn source_span_conversions() {
    assert_eq!(SourceSpan::from(4), SourceSpan::point(4));
    assert_eq!(SourceSpan::new(5, 2), SourceSpan::new(5, 5));
    assert_eq!(SourceSpan::from_start_len(usize::MAX - 1, 5).end, usize::MAX);
    assert_eq!(SourceSpan::range(2..4).len(), 2);
    assert!(SourceSpan::point(3).is_empty());
}
