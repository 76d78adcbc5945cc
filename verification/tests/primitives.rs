use typeward::input::{BytesInput, StrInput, TokenStream};
use typeward::parse::Parse;
use typeward::literals::Semi;
use typeward::primitives::{
    AlphaString, Binary, HexDigit, Negative, NonNegative, NonPositive, NonZero, Positive,
    TakeTillToken, Upper,
};

#[test]
fn test_i64_parse() {
    let (num, rest) = i64::parse(StrInput::new("123 rest")).unwrap();
    assert_eq!(num, 123);
    assert_eq!(rest.as_str(), " rest");
}

#[test]
fn test_i64_parse_invalid() {
    assert!(i64::parse(StrInput::new("abc rest")).is_err());
}

#[test]
fn test_bool_parse_true() {
    let (val, rest) = bool::parse(StrInput::new("true rest")).unwrap();
    assert!(val);
    assert_eq!(rest.as_str(), " rest");
}

#[test]
fn test_bool_parse_false() {
    let (val, rest) = bool::parse(StrInput::new("false rest")).unwrap();
    assert!(!val);
    assert_eq!(rest.as_str(), " rest");
}

#[test]
fn test_bool_parse_invalid() {
    let err = bool::parse(StrInput::new("yes rest")).unwrap_err();
    assert_eq!(err.display_string(), "expected 'true' or 'false', found 'yes rest'");
}

#[test]
fn test_u32_parse() {
    let (num, rest) = u32::parse(StrInput::new("42 rest")).unwrap();
    assert_eq!(num, 42);
    assert_eq!(rest.as_str(), " rest");
}

#[test]
fn test_i64_parse_bytes() {
    let (num, rest) = i64::parse(BytesInput::new(b"123 rest")).unwrap();
    assert_eq!(num, 123);
    assert_eq!(rest.as_bytes(), b" rest");
}

#[test]
fn test_alpha_parse_token_stream() {
    let tokens = ["hello", "world"];
    let (word, rest) = AlphaString::parse(TokenStream::new(&tokens)).unwrap();
    assert_eq!(word.value, "hello");
    assert_eq!(rest.as_slice(), &["world"]);
}

#[test]
fn str_parse_takes_a_word() {
    let (word, rest) = <&str>::parse(StrInput::new("hello world")).unwrap();
    assert_eq!(word, "hello");
    assert_eq!(rest.as_str(), " world");
}

#[test]
fn signed_parse_accepts_sign_and_leading_whitespace() {
    let (num, rest) = i32::parse(StrInput::new("  -17x")).unwrap();
    assert_eq!(num, -17);
    assert_eq!(rest.as_str(), "x");
    let (num, _) = i8::parse(StrInput::new("+127")).unwrap();
    assert_eq!(num, 127);
}

#[test]
fn integer_overflow_is_reported() {
    let err = u8::parse(StrInput::new("256")).unwrap_err();
    assert_eq!(err.display_string(), "expected u8, found '256'");
    let err = i8::parse(StrInput::new("-128")).unwrap_err();
    assert_eq!(err.display_string(), "expected i8, found '128'");
}

#[test]
fn unsigned_parse_reports_missing_digits() {
    let err = u32::parse(StrInput::new("x1")).unwrap_err();
    assert_eq!(err.display_string(), "expected Digit, found 'x1'");
}

#[test]
fn char_parse_at_end_reports_eof() {
    let err = char::parse(StrInput::new("")).unwrap_err();
    assert_eq!(err.span(), Some(typeward::error::SourceSpan::point(0)));
}

#[test]
fn test_cow_parse() {
    let (cow, rest) = std::borrow::Cow::<str>::parse(StrInput::new("hello world")).unwrap();
    assert_eq!(cow, "hello");
    assert_eq!(rest.as_str(), " world");
}

#[test]
fn filtered_integers() {
    let (p, _) = Positive::<i64>::parse(StrInput::new("5")).unwrap();
    assert_eq!(p.0, 5);
    let err = Positive::<i64>::parse(StrInput::new("-5")).unwrap_err();
    assert_eq!(err.display_string(), "expected Positive, found '-5'");
    assert!(Negative::<i32>::parse(StrInput::new("0")).is_err());
    assert_eq!(NonNegative::<i8>::parse(StrInput::new("0")).unwrap().0 .0, 0);
    assert_eq!(NonPositive::<i16>::parse(StrInput::new("-3")).unwrap().0 .0, -3);
    let err = NonZero::<u64>::parse(StrInput::new("0")).unwrap_err();
    assert_eq!(err.display_string(), "expected NonZero, found '0'");
    let err = Negative::<i128>::parse(StrInput::new("170141183460469231731687303715884105727")).unwrap_err();
    assert_eq!(
        err.display_string(),
        "expected Negative, found '170141183460469231731687303715884105727'"
    );
}

#[test]
fn filtered_strings() {
    let (h, rest) = HexDigit::<&str>::parse(StrInput::new("1aFg")).unwrap();
    assert_eq!(h.value, "1aF");
    assert_eq!(rest.as_str(), "g");
    let err = Binary::<String>::parse(StrInput::new("2")).unwrap_err();
    assert_eq!(err.display_string(), "expected Binary, found '2'");
    let (u, _) = Upper::<String>::parse(StrInput::new("ÄB c")).unwrap();
    assert_eq!(u.value, "ÄB");
}

#[test]
fn take_till_token_takes_all_without_the_token() {
    let (t, rest) = TakeTillToken::<Semi>::parse(StrInput::new("abc")).unwrap();
    assert_eq!(t.into_inner(), "abc");
    assert_eq!(rest.as_str(), "");
}
