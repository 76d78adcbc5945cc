use typeward::combinators::Ws;
use typeward::error::SourceSpan;
use typeward::input::{BytesInput, Input, ReadInputBuf, StrInput};
use typeward::parse::{
    parse_complete_input, parse_complete_input_spanned, with_parse_offset_scope,
    with_parse_recursion_guard, Parse, ParseOffsetContext,
};
use typeward::token::Token;

#[derive(Debug, Clone, Copy, PartialEq, Eq, Default)]
struct HelloParser;

impl Token for HelloParser {
    fn value() -> &'static str {
        "hello"
    }

    fn token() -> Self {
        HelloParser
    }
}

#[test]
fn test_option_parse_does_not_consume_input_on_failure() {
    let input = StrInput::new("not a number");
    let mut context = ParseOffsetContext::new();
    let (result, remaining) = Option::<i64>::parse_with_context(input, &mut context).unwrap();
    assert!(result.is_none());
    assert_eq!(remaining.as_str(), "not a number");
}

#[test]
fn test_vec_parse_accumulates_all_successful_items() {
    let input = StrInput::new("1 2 three 4");
    let mut context = ParseOffsetContext::new();
    let (result, remaining) = Vec::<i64>::parse_with_context(input, &mut context).unwrap();
    assert_eq!(result, vec![1, 2]);
    assert_eq!(remaining.as_str(), " three 4");
}

#[test]
fn test_tuple_parse() {
    let input = StrInput::new("42 hello");
    let mut context = ParseOffsetContext::new();
    let (result, remaining) =
        <(i64, Ws<HelloParser>)>::parse_with_context(input, &mut context).unwrap();
    assert_eq!(result.0, 42);
    assert_eq!(result.1, Ws(HelloParser));
    assert_eq!(remaining.as_str(), "");
}

#[test]
fn offset_test_with_parse_offset_scope_if_missing_reuses_existing_scope() {
    let input = StrInput::new("abcdef");
    let (_, sub) = <(char, char)>::parse(input).unwrap();
    let mut context = ParseOffsetContext::new();
    with_parse_offset_scope(&mut context, input, |context| {
        let roots_before = context.root_count();
        typeward::parse::with_parse_offset_scope_if_missing(context, sub, |context| {
            assert_eq!(context.root_count(), roots_before);
            assert_eq!(typeward::parse::current_parse_offset(context, sub), 2);
        });
        assert_eq!(context.root_count(), roots_before);
    });
    assert_eq!(context.root_count(), 0);
}

#[test]
fn offset_test_with_parse_offset_scope_if_missing_pushes_when_unscoped() {
    let input = StrInput::new("abcdef");
    let (_, sub) = <(char, char)>::parse(input).unwrap();
    let mut context = ParseOffsetContext::new();
    typeward::parse::with_parse_offset_scope_if_missing(&mut context, sub, |context| {
        assert_eq!(context.root_count(), 1);
        assert_eq!(typeward::parse::current_parse_offset(context, sub), 0);
    });
    assert_eq!(context.root_count(), 0);
}

#[test]
fn offset_test_current_parse_offset_prefers_innermost_scope() {
    let input = StrInput::new("abcdef");
    let (_, after_two) = <(char, char)>::parse(input).unwrap();
    let (_, end) = <(char, (char, char))>::parse(after_two).unwrap();
    let inner = after_two.slice_to(end).unwrap();
    let (_, inner_tail) = char::parse(inner).unwrap();
    let mut context = ParseOffsetContext::new();
    with_parse_offset_scope(&mut context, input, |context| {
        assert_eq!(typeward::parse::current_parse_offset(context, inner), 2);
        with_parse_offset_scope(context, inner, |context| {
            assert_eq!(typeward::parse::current_parse_offset(context, inner), 0);
            assert_eq!(typeward::parse::current_parse_offset(context, inner_tail), 1);
        });
        assert_eq!(typeward::parse::current_parse_offset(context, inner_tail), 3);
    });
}

#[test]
fn test_with_parse_recursion_guard_rejects_same_parser_same_offset() {
    let input = StrInput::new("abc");
    let mut context = ParseOffsetContext::new();
    with_parse_offset_scope(&mut context, input, |context| {
        let err = with_parse_recursion_guard(context, input, "Demo", |context| {
            with_parse_recursion_guard(context, input, "Demo", |_context| Ok(()))
        })
        .expect_err("expected recursion guard error");
        assert!(err.is_fatal());
        assert_eq!(err.span(), Some(SourceSpan::point(0)));
        assert!(err.display_string().contains("made no progress"));
    });
}

#[test]
fn test_with_parse_recursion_guard_allows_progress() {
    let input = StrInput::new("abc");
    let (_, rest) = char::parse(input).unwrap();
    let mut context = ParseOffsetContext::new();
    with_parse_offset_scope(&mut context, input, |context| {
        let result = with_parse_recursion_guard(context, input, "Demo", |context| {
            with_parse_recursion_guard(context, rest, "Demo", |_context| Ok(123usize))
        })
        .expect("progressing recursion should be allowed");
        assert_eq!(result, 123);
    });
}

#[test]
fn read_input_take_char_rejects_invalid_utf8() {
    let bytes = [0xFFu8];
    let buf = ReadInputBuf::new(bytes.to_vec());
    let err = buf.as_input().take_char().unwrap_err();
    assert!(err.display_string().contains("invalid UTF-8 input"));
}

#[test]
fn parse_complete_input_supports_unbuffered_reader_data() {
    let input = ReadInputBuf::new(b"hello".to_vec());
    let parsed = parse_complete_input::<_, HelloParser>(input.as_input()).unwrap();
    assert_eq!(parsed, HelloParser);
}

#[test]
fn parse_complete_input_supports_buffered_reader_data() {
    let input = ReadInputBuf::from(b"hello".to_vec());
    let parsed = parse_complete_input::<_, HelloParser>(input.as_input()).unwrap();
    assert_eq!(parsed, HelloParser);
}

#[test]
fn parse_complete_input_spanned_uses_byte_offsets_for_read_input() {
    let input = ReadInputBuf::new("\u{00E9}".as_bytes().to_vec());
    let result = parse_complete_input_spanned::<_, char>(input.as_input()).unwrap();
    assert_eq!(result.inner, '\u{00E9}');
    assert_eq!(result.span.start, 0);
    assert_eq!(result.span.end, 2);
}

#[test]
fn bytes_input_trim_start_skips_ascii_whitespace() {
    let input = BytesInput::new(b"  \tabc");
    assert_eq!(input.trim_start().as_bytes(), b"abc");
}

#[test]
fn parse_complete_input_reads_and_parses_data_larger_than_default_capacity() {
    let payload = format!("({})", "a".repeat((8 * 1024) + 257));
    let input = ReadInputBuf::new(payload.as_bytes().to_vec());
    assert_eq!(input.as_bytes(), payload.as_bytes());
    let parsed = parse_complete_input::<_, typeward::combinators::Parenthesized<String>>(
        input.as_input(),
    )
    .unwrap();
    assert_eq!(parsed.inner, &payload[1..payload.len() - 1]);
}

#[test]
fn vec_deque_parse_keeps_order() {
    let input = StrInput::new("3 1 4 x");
    let mut context = ParseOffsetContext::new();
    let (result, remaining) =
        std::collections::VecDeque::<i64>::parse_with_context(input, &mut context).unwrap();
    assert_eq!(result, std::collections::VecDeque::from(vec![3, 1, 4]));
    assert_eq!(remaining.as_str(), " x");
}

#[test]
fn hash_set_parse_keeps_distinct_items() {
    let input = StrInput::new("3 1 4 1 x");
    let mut context = ParseOffsetContext::new();
    let (result, remaining) =
        std::collections::HashSet::<i64>::parse_with_context(input, &mut context).unwrap();
    assert_eq!(result, [1, 3, 4].into_iter().collect());
    assert_eq!(remaining.as_str(), " x");
}

#[test]
fn btree_set_parse_keeps_distinct_items_in_order() {
    let input = StrInput::new("3 1 4 1 5");
    let mut context = ParseOffsetContext::new();
    let (result, remaining) =
        std::collections::BTreeSet::<i64>::parse_with_context(input, &mut context).unwrap();
    assert_eq!(result.into_iter().collect::<Vec<_>>(), vec![1, 3, 4, 5]);
    assert!(remaining.as_str().trim().is_empty());
}

#[test]
fn test_binary_heap_parse() {
    let input = StrInput::new("3 1 4 1 5");
    let mut context = ParseOffsetContext::new();
    let (result, remaining) =
        typeward::collections::heap::BinaryHeap::<i64>::parse_with_context(input, &mut context).unwrap();
    let sorted: Vec<_> = result.into_sorted_vec();
    assert_eq!(sorted, vec![1, 1, 3, 4, 5]);
    assert!(remaining.as_str().trim().is_empty());
}

#[test]
fn binary_heap_peek_and_push() {
    let mut heap = typeward::collections::heap::BinaryHeap::<u8>::new();
    assert!(heap.is_empty());
    assert_eq!(heap.peek(), None);
    heap.push(4);
    heap.push(9);
    heap.push(1);
    assert_eq!(heap.len(), 3);
    assert_eq!(heap.peek(), Some(&9));
    assert_eq!(heap.into_sorted_vec(), vec![1, 4, 9]);
}
