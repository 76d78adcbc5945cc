use typeward::collections::{Collect, Many0, Many1, Repeat, RepeatUntil};
use typeward::input::StrInput;
use typeward::parse::Parse;
use typeward::primitives::{AlphaString, DigitStr};

fn s(text: &str) -> StrInput<'_> {
    StrInput::new(text)
}

#[test]
fn many0_collects_until_failure() {
    let (result, rest) = Many0::<char>::parse(s("abc123")).unwrap();
    assert_eq!(result, ['a', 'b', 'c', '1', '2', '3']);
    assert_eq!(rest.as_str(), "");
}

#[test]
fn many1_requires_at_least_one_match() {
    assert!(Many1::<i64>::parse(s("abc")).is_err());
}

#[test]
fn many0_rejects_non_consuming_parser() {
    assert!(Many0::<()>::parse(s("input")).is_err());
}

#[test]
fn many1_rejects_non_consuming_parser() {
    assert!(Many1::<()>::parse(s("input")).is_err());
}

#[test]
fn many1_keeps_items_in_order() {
    let (result, rest) = Many1::<char>::parse(s("xy")).unwrap();
    assert_eq!(result.len(), 2);
    assert_eq!(*result.first(), 'x');
    assert_eq!(*result.last(), 'y');
    assert_eq!(rest.as_str(), "");
}

#[test]
fn test_repeat_max_limit() {
    let (result, rest) = Repeat::<char, 3, 5>::parse(s("abc123def456ghi")).unwrap();
    assert_eq!(result.into_items(), "abc12".chars().collect::<Vec<_>>());
    assert_eq!(rest.as_str(), "3def456ghi");
}

#[test]
fn test_repeat_min_not_met() {
    let err = Repeat::<char, 3, 5>::parse(s("ab")).unwrap_err();
    assert_eq!(err.display_string(), "expected at least 3 items, found 2");
}

#[test]
fn test_repeat_rejects_non_consuming_parser() {
    assert!(Repeat::<(), 0, 5>::parse(s("abc")).is_err());
}

#[test]
fn test_repeat_until() {
    let (result, rest) = RepeatUntil::<AlphaString, DigitStr<'_>>::parse(s("abc123def456ghi")).unwrap();
    let items: Vec<String> = result.into_items().into_iter().map(|a| a.value).collect();
    assert_eq!(items, vec!["abc"]);
    assert_eq!(rest.as_str(), "123def456ghi");
}

#[test]
fn collect_gathers_items_until_failure() {
    let (result, rest) = Collect::<char>::parse(s("ab")).unwrap();
    assert_eq!(result.items(), &['a', 'b']);
    assert_eq!(rest.as_str(), "");
}
