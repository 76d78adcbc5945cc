//! `Parse` implementations for built-in types: strings, filtered strings, integers, `bool`
//! and `char`.
use vstd::prelude::*;

use crate::error::{ErrorModel, ParseError, ParseResult, SourceSpan};
use crate::input::{text_res_model, Input};
use crate::parse::offset::{
    current_parse_offset, spec_current_offset, ContextModel, ParseOffsetContext,
    ParseOffsetInput,
};
use crate::parse::Parse;
use crate::text::{cow_borrowed, int_chars, int_string, CharClass};
use crate::token::Token;
use std::borrow::Cow;
use std::marker::PhantomData;

verus! {

// ---------------------------------------------------------------------------
// Character runs
// ---------------------------------------------------------------------------

/// The message `expected {what}, found '{found}'`.
pub open spec fn expected_found(what: Seq<char>, found: Seq<char>) -> Seq<char> {
    "expected "@ + what + ", found '"@ + found + "'"@
}

/// The message `expected {what}, found '{found}'`.
pub fn expected_found_message(what: &str, found: &str) -> (r: String)
    ensures
        r@ == expected_found(what@, found@),
{
    let mut m = String::new();
    m.append("expected ");
    m.append(what);
    m.append(", found '");
    m.append(found);
    m.append("'");
    proof {
        reveal_strlit("expected ");
        reveal_strlit(", found '");
        reveal_strlit("'");
        assert(m@ =~= expected_found(what@, found@));
    }
    m
}

/// What matching a non-empty run of `class` characters gives: the run and the input after
/// it, or `expected {name}` when the input does not start with such a character.
pub open spec fn class_run_rel<'a, I: ParseOffsetInput<'a>>(input: I, class: CharClass, name: Seq<char>) -> Result<
    (Seq<char>, I),
    ErrorModel,
> {
    match input.spec_take_while(class) {
        Err(e) => Err(e),
        Ok((s, rest)) => if s.len() == 0 {
            Err(ErrorModel::Custom(expected_found(name, input.spec_display())))
        } else {
            Ok((s, rest))
        },
    }
}

/// Matches a non-empty run of `class` characters.
pub fn class_run<'a, I: ParseOffsetInput<'a>>(input: I, class: CharClass, name: &'static str) -> (r: ParseResult<
    (&'a str, I),
>)
    ensures
        text_res_model(r) == class_run_rel(input, class, name@),
{
    let (s, rest) = input.take_while(class)?;
    if s.unicode_len() == 0 {
        let found = input.display();
        return Err(ParseError::custom_owned(expected_found_message(name, found.as_str())));
    }
    Ok((s, rest))
}

// ---------------------------------------------------------------------------
// Strings
// ---------------------------------------------------------------------------

/// What parsing a whitespace-free word gives: the word and the input after it.
pub open spec fn word_rel<'a, I: ParseOffsetInput<'a>>(input: I) -> Result<(Seq<char>, I), ErrorModel> {
    if input.spec_is_empty() {
        Err(ErrorModel::Custom("expected string, found end of input"@))
    } else {
        match input.spec_take_while(CharClass::NonWhitespace) {
            Err(e) => Err(e),
            Ok((s, rest)) => if s.len() == 0 {
                Err(ErrorModel::Custom(expected_found("string"@, input.spec_display())))
            } else {
                Ok((s, rest))
            },
        }
    }
}

/// Parses a whitespace-free word from the start of `input`.
pub fn parse_word<'a, I: ParseOffsetInput<'a>>(input: I) -> (r: ParseResult<(&'a str, I)>)
    ensures
        text_res_model(r) == word_rel(input),
{
    if input.is_empty() {
        return Err(ParseError::custom("expected string, found end of input"));
    }
    let (token, rest) = input.take_while(CharClass::NonWhitespace)?;
    if token.unicode_len() == 0 {
        let found = input.display();
        return Err(ParseError::custom_owned(expected_found_message("string", found.as_str())));
    }
    Ok((token, rest))
}

impl<'a, I: ParseOffsetInput<'a>> Parse<'a, I> for &'a str {
    /// A whitespace-free word; see [`word_rel`].
    open spec fn parse_rel(input: I, ctx: ContextModel, out: Result<(&'a str, I), ErrorModel>) -> bool {
        match out {
            Err(e) => word_rel(input) == Err::<(Seq<char>, I), ErrorModel>(e),
            Ok(p) => word_rel(input) == Ok::<(Seq<char>, I), ErrorModel>((p.0@, p.1)),
        }
    }

    fn parse_with_context(input: I, context: &mut ParseOffsetContext) -> (r: ParseResult<(&'a str, I)>) {
        parse_word(input)
    }
}

impl<'a, I: ParseOffsetInput<'a>> Parse<'a, I> for Cow<'a, str> {
    /// A whitespace-free word, borrowed; see [`word_rel`].
    open spec fn parse_rel(input: I, ctx: ContextModel, out: Result<(Cow<'a, str>, I), ErrorModel>) -> bool {
        match out {
            Err(e) => word_rel(input) == Err::<(Seq<char>, I), ErrorModel>(e),
            Ok(p) => word_rel(input) == Ok::<(Seq<char>, I), ErrorModel>((p.0@, p.1)),
        }
    }

    fn parse_with_context(input: I, context: &mut ParseOffsetContext) -> (r: ParseResult<(Cow<'a, str>, I)>) {
        let (s, rest) = parse_word(input)?;
        Ok((cow_borrowed(s), rest))
    }
}

impl<'a, I: ParseOffsetInput<'a>> Parse<'a, I> for String {
    /// A whitespace-free word, owned; see [`word_rel`].
    open spec fn parse_rel(input: I, ctx: ContextModel, out: Result<(String, I), ErrorModel>) -> bool {
        match out {
            Err(e) => word_rel(input) == Err::<(Seq<char>, I), ErrorModel>(e),
            Ok(p) => word_rel(input) == Ok::<(Seq<char>, I), ErrorModel>((p.0@, p.1)),
        }
    }

    fn parse_with_context(input: I, context: &mut ParseOffsetContext) -> (r: ParseResult<(String, I)>) {
        let (s, rest) = parse_word(input)?;
        Ok((s.to_owned(), rest))
    }
}

// ---------------------------------------------------------------------------
// Filtered strings
// ---------------------------------------------------------------------------

/// A non-empty run of alphabetic characters, held as `S`.
#[derive(Debug, Clone, PartialEq, Eq, Hash, Default, PartialOrd, Ord)]
pub struct Alpha<S> {
    pub value: S,
}

/// [`Alpha`] borrowing the matched text.
pub type AlphaStr<'a> = Alpha<&'a str>;

/// [`Alpha`] owning the matched text.
pub type AlphaString = Alpha<String>;

impl<'a, I: ParseOffsetInput<'a>> Parse<'a, I> for Alpha<&'a str> {
    /// The longest non-empty run of the class; see [`class_run_rel`].
    open spec fn parse_rel(input: I, ctx: ContextModel, out: Result<(Alpha<&'a str>, I), ErrorModel>) -> bool {
        match out {
            Err(e) => class_run_rel(input, CharClass::Alpha, "Alpha"@) == Err::<(Seq<char>, I), ErrorModel>(e),
            Ok(p) => class_run_rel(input, CharClass::Alpha, "Alpha"@) == Ok::<(Seq<char>, I), ErrorModel>((p.0.value@, p.1)),
        }
    }

    fn parse_with_context(input: I, context: &mut ParseOffsetContext) -> (r: ParseResult<(Alpha<&'a str>, I)>) {
        let (s, rest) = class_run(input, CharClass::Alpha, "Alpha")?;
        Ok((Alpha { value: s }, rest))
    }
}

impl<'a, I: ParseOffsetInput<'a>> Parse<'a, I> for Alpha<String> {
    /// The longest non-empty run of the class, owned; see [`class_run_rel`].
    open spec fn parse_rel(input: I, ctx: ContextModel, out: Result<(Alpha<String>, I), ErrorModel>) -> bool {
        match out {
            Err(e) => class_run_rel(input, CharClass::Alpha, "Alpha"@) == Err::<(Seq<char>, I), ErrorModel>(e),
            Ok(p) => class_run_rel(input, CharClass::Alpha, "Alpha"@) == Ok::<(Seq<char>, I), ErrorModel>((p.0.value@, p.1)),
        }
    }

    fn parse_with_context(input: I, context: &mut ParseOffsetContext) -> (r: ParseResult<(Alpha<String>, I)>) {
        let (s, rest) = class_run(input, CharClass::Alpha, "Alpha")?;
        Ok((Alpha { value: s.to_owned() }, rest))
    }
}

/// A non-empty run of ASCII digits, held as `S`.
#[derive(Debug, Clone, PartialEq, Eq, Hash, Default, PartialOrd, Ord)]
pub struct Digit<S> {
    pub value: S,
}

/// [`Digit`] borrowing the matched text.
pub type DigitStr<'a> = Digit<&'a str>;

/// [`Digit`] owning the matched text.
pub type DigitString = Digit<String>;

impl<'a, I: ParseOffsetInput<'a>> Parse<'a, I> for Digit<&'a str> {
    /// The longest non-empty run of the class; see [`class_run_rel`].
    open spec fn parse_rel(input: I, ctx: ContextModel, out: Result<(Digit<&'a str>, I), ErrorModel>) -> bool {
        match out {
            Err(e) => class_run_rel(input, CharClass::Digit, "Digit"@) == Err::<(Seq<char>, I), ErrorModel>(e),
            Ok(p) => class_run_rel(input, CharClass::Digit, "Digit"@) == Ok::<(Seq<char>, I), ErrorModel>((p.0.value@, p.1)),
        }
    }

    fn parse_with_context(input: I, context: &mut ParseOffsetContext) -> (r: ParseResult<(Digit<&'a str>, I)>) {
        let (s, rest) = class_run(input, CharClass::Digit, "Digit")?;
        Ok((Digit { value: s }, rest))
    }
}

impl<'a, I: ParseOffsetInput<'a>> Parse<'a, I> for Digit<String> {
    /// The longest non-empty run of the class, owned; see [`class_run_rel`].
    open spec fn parse_rel(input: I, ctx: ContextModel, out: Result<(Digit<String>, I), ErrorModel>) -> bool {
        match out {
            Err(e) => class_run_rel(input, CharClass::Digit, "Digit"@) == Err::<(Seq<char>, I), ErrorModel>(e),
            Ok(p) => class_run_rel(input, CharClass::Digit, "Digit"@) == Ok::<(Seq<char>, I), ErrorModel>((p.0.value@, p.1)),
        }
    }

    fn parse_with_context(input: I, context: &mut ParseOffsetContext) -> (r: ParseResult<(Digit<String>, I)>) {
        let (s, rest) = class_run(input, CharClass::Digit, "Digit")?;
        Ok((Digit { value: s.to_owned() }, rest))
    }
}

/// A non-empty run of alphanumeric characters, held as `S`.
#[derive(Debug, Clone, PartialEq, Eq, Hash, Default, PartialOrd, Ord)]
pub struct AlphaNum<S> {
    pub value: S,
}

/// [`AlphaNum`] borrowing the matched text.
pub type AlphaNumStr<'a> = AlphaNum<&'a str>;

/// [`AlphaNum`] owning the matched text.
pub type AlphaNumString = AlphaNum<String>;

impl<'a, I: ParseOffsetInput<'a>> Parse<'a, I> for AlphaNum<&'a str> {
    /// The longest non-empty run of the class; see [`class_run_rel`].
    open spec fn parse_rel(input: I, ctx: ContextModel, out: Result<(AlphaNum<&'a str>, I), ErrorModel>) -> bool {
        match out {
            Err(e) => class_run_rel(input, CharClass::AlphaNum, "AlphaNum"@) == Err::<(Seq<char>, I), ErrorModel>(e),
            Ok(p) => class_run_rel(input, CharClass::AlphaNum, "AlphaNum"@) == Ok::<(Seq<char>, I), ErrorModel>((p.0.value@, p.1)),
        }
    }

    fn parse_with_context(input: I, context: &mut ParseOffsetContext) -> (r: ParseResult<(AlphaNum<&'a str>, I)>) {
        let (s, rest) = class_run(input, CharClass::AlphaNum, "AlphaNum")?;
        Ok((AlphaNum { value: s }, rest))
    }
}

impl<'a, I: ParseOffsetInput<'a>> Parse<'a, I> for AlphaNum<String> {
    /// The longest non-empty run of the class, owned; see [`class_run_rel`].
    open spec fn parse_rel(input: I, ctx: ContextModel, out: Result<(AlphaNum<String>, I), ErrorModel>) -> bool {
        match out {
            Err(e) => class_run_rel(input, CharClass::AlphaNum, "AlphaNum"@) == Err::<(Seq<char>, I), ErrorModel>(e),
            Ok(p) => class_run_rel(input, CharClass::AlphaNum, "AlphaNum"@) == Ok::<(Seq<char>, I), ErrorModel>((p.0.value@, p.1)),
        }
    }

    fn parse_with_context(input: I, context: &mut ParseOffsetContext) -> (r: ParseResult<(AlphaNum<String>, I)>) {
        let (s, rest) = class_run(input, CharClass::AlphaNum, "AlphaNum")?;
        Ok((AlphaNum { value: s.to_owned() }, rest))
    }
}

/// A non-empty run of alphanumeric characters and `_`, held as `S`.
#[derive(Debug, Clone, PartialEq, Eq, Hash, Default, PartialOrd, Ord)]
pub struct Identifier<S> {
    pub value: S,
}

/// [`Identifier`] borrowing the matched text.
pub type IdentifierStr<'a> = Identifier<&'a str>;

/// [`Identifier`] owning the matched text.
pub type IdentifierString = Identifier<String>;

impl<'a, I: ParseOffsetInput<'a>> Parse<'a, I> for Identifier<&'a str> {
    /// The longest non-empty run of the class; see [`class_run_rel`].
    open spec fn parse_rel(input: I, ctx: ContextModel, out: Result<(Identifier<&'a str>, I), ErrorModel>) -> bool {
        match out {
            Err(e) => class_run_rel(input, CharClass::Identifier, "Identifier"@) == Err::<(Seq<char>, I), ErrorModel>(e),
            Ok(p) => class_run_rel(input, CharClass::Identifier, "Identifier"@) == Ok::<(Seq<char>, I), ErrorModel>((p.0.value@, p.1)),
        }
    }

    fn parse_with_context(input: I, context: &mut ParseOffsetContext) -> (r: ParseResult<(Identifier<&'a str>, I)>) {
        let (s, rest) = class_run(input, CharClass::Identifier, "Identifier")?;
        Ok((Identifier { value: s }, rest))
    }
}

impl<'a, I: ParseOffsetInput<'a>> Parse<'a, I> for Identifier<String> {
    /// The longest non-empty run of the class, owned; see [`class_run_rel`].
    open spec fn parse_rel(input: I, ctx: ContextModel, out: Result<(Identifier<String>, I), ErrorModel>) -> bool {
        match out {
            Err(e) => class_run_rel(input, CharClass::Identifier, "Identifier"@) == Err::<(Seq<char>, I), ErrorModel>(e),
            Ok(p) => class_run_rel(input, CharClass::Identifier, "Identifier"@) == Ok::<(Seq<char>, I), ErrorModel>((p.0.value@, p.1)),
        }
    }

    fn parse_with_context(input: I, context: &mut ParseOffsetContext) -> (r: ParseResult<(Identifier<String>, I)>) {
        let (s, rest) = class_run(input, CharClass::Identifier, "Identifier")?;
        Ok((Identifier { value: s.to_owned() }, rest))
    }
}

/// A non-empty run of whitespace, held as `S`.
#[derive(Debug, Clone, PartialEq, Eq, Hash, Default, PartialOrd, Ord)]
pub struct Whitespace<S> {
    pub value: S,
}

/// [`Whitespace`] borrowing the matched text.
pub type WhitespaceStr<'a> = Whitespace<&'a str>;

/// [`Whitespace`] owning the matched text.
pub type WhitespaceString = Whitespace<String>;

impl<'a, I: ParseOffsetInput<'a>> Parse<'a, I> for Whitespace<&'a str> {
    /// The longest non-empty run of the class; see [`class_run_rel`].
    open spec fn parse_rel(input: I, ctx: ContextModel, out: Result<(Whitespace<&'a str>, I), ErrorModel>) -> bool {
        match out {
            Err(e) => class_run_rel(input, CharClass::Whitespace, "Whitespace"@) == Err::<(Seq<char>, I), ErrorModel>(e),
            Ok(p) => class_run_rel(input, CharClass::Whitespace, "Whitespace"@) == Ok::<(Seq<char>, I), ErrorModel>((p.0.value@, p.1)),
        }
    }

    fn parse_with_context(input: I, context: &mut ParseOffsetContext) -> (r: ParseResult<(Whitespace<&'a str>, I)>) {
        let (s, rest) = class_run(input, CharClass::Whitespace, "Whitespace")?;
        Ok((Whitespace { value: s }, rest))
    }
}

impl<'a, I: ParseOffsetInput<'a>> Parse<'a, I> for Whitespace<String> {
    /// The longest non-empty run of the class, owned; see [`class_run_rel`].
    open spec fn parse_rel(input: I, ctx: ContextModel, out: Result<(Whitespace<String>, I), ErrorModel>) -> bool {
        match out {
            Err(e) => class_run_rel(input, CharClass::Whitespace, "Whitespace"@) == Err::<(Seq<char>, I), ErrorModel>(e),
            Ok(p) => class_run_rel(input, CharClass::Whitespace, "Whitespace"@) == Ok::<(Seq<char>, I), ErrorModel>((p.0.value@, p.1)),
        }
    }

    fn parse_with_context(input: I, context: &mut ParseOffsetContext) -> (r: ParseResult<(Whitespace<String>, I)>) {
        let (s, rest) = class_run(input, CharClass::Whitespace, "Whitespace")?;
        Ok((Whitespace { value: s.to_owned() }, rest))
    }
}

/// A non-empty run of characters other than whitespace, held as `S`.
#[derive(Debug, Clone, PartialEq, Eq, Hash, Default, PartialOrd, Ord)]
pub struct NonWhitespace<S> {
    pub value: S,
}

/// [`NonWhitespace`] borrowing the matched text.
pub type NonWhitespaceStr<'a> = NonWhitespace<&'a str>;

/// [`NonWhitespace`] owning the matched text.
pub type NonWhitespaceString = NonWhitespace<String>;

impl<'a, I: ParseOffsetInput<'a>> Parse<'a, I> for NonWhitespace<&'a str> {
    /// The longest non-empty run of the class; see [`class_run_rel`].
    open spec fn parse_rel(input: I, ctx: ContextModel, out: Result<(NonWhitespace<&'a str>, I), ErrorModel>) -> bool {
        match out {
            Err(e) => class_run_rel(input, CharClass::NonWhitespace, "NonWhitespace"@) == Err::<(Seq<char>, I), ErrorModel>(e),
            Ok(p) => class_run_rel(input, CharClass::NonWhitespace, "NonWhitespace"@) == Ok::<(Seq<char>, I), ErrorModel>((p.0.value@, p.1)),
        }
    }

    fn parse_with_context(input: I, context: &mut ParseOffsetContext) -> (r: ParseResult<(NonWhitespace<&'a str>, I)>) {
        let (s, rest) = class_run(input, CharClass::NonWhitespace, "NonWhitespace")?;
        Ok((NonWhitespace { value: s }, rest))
    }
}

impl<'a, I: ParseOffsetInput<'a>> Parse<'a, I> for NonWhitespace<String> {
    /// The longest non-empty run of the class, owned; see [`class_run_rel`].
    open spec fn parse_rel(input: I, ctx: ContextModel, out: Result<(NonWhitespace<String>, I), ErrorModel>) -> bool {
        match out {
            Err(e) => class_run_rel(input, CharClass::NonWhitespace, "NonWhitespace"@) == Err::<(Seq<char>, I), ErrorModel>(e),
            Ok(p) => class_run_rel(input, CharClass::NonWhitespace, "NonWhitespace"@) == Ok::<(Seq<char>, I), ErrorModel>((p.0.value@, p.1)),
        }
    }

    fn parse_with_context(input: I, context: &mut ParseOffsetContext) -> (r: ParseResult<(NonWhitespace<String>, I)>) {
        let (s, rest) = class_run(input, CharClass::NonWhitespace, "NonWhitespace")?;
        Ok((NonWhitespace { value: s.to_owned() }, rest))
    }
}

/// A non-empty run of ASCII hexadecimal digits, held as `S`.
#[derive(Debug, Clone, PartialEq, Eq, Hash, Default, PartialOrd, Ord)]
pub struct HexDigit<S> {
    pub value: S,
}

/// [`HexDigit`] borrowing the matched text.
pub type HexDigitStr<'a> = HexDigit<&'a str>;

/// [`HexDigit`] owning the matched text.
pub type HexDigitString = HexDigit<String>;

impl<'a, I: ParseOffsetInput<'a>> Parse<'a, I> for HexDigit<&'a str> {
    /// The longest non-empty run of the class; see [`class_run_rel`].
    open spec fn parse_rel(input: I, ctx: ContextModel, out: Result<(HexDigit<&'a str>, I), ErrorModel>) -> bool {
        match out {
            Err(e) => class_run_rel(input, CharClass::HexDigit, "HexDigit"@) == Err::<(Seq<char>, I), ErrorModel>(e),
            Ok(p) => class_run_rel(input, CharClass::HexDigit, "HexDigit"@) == Ok::<(Seq<char>, I), ErrorModel>((p.0.value@, p.1)),
        }
    }

    fn parse_with_context(input: I, context: &mut ParseOffsetContext) -> (r: ParseResult<(HexDigit<&'a str>, I)>) {
        let (s, rest) = class_run(input, CharClass::HexDigit, "HexDigit")?;
        Ok((HexDigit { value: s }, rest))
    }
}

impl<'a, I: ParseOffsetInput<'a>> Parse<'a, I> for HexDigit<String> {
    /// The longest non-empty run of the class, owned; see [`class_run_rel`].
    open spec fn parse_rel(input: I, ctx: ContextModel, out: Result<(HexDigit<String>, I), ErrorModel>) -> bool {
        match out {
            Err(e) => class_run_rel(input, CharClass::HexDigit, "HexDigit"@) == Err::<(Seq<char>, I), ErrorModel>(e),
            Ok(p) => class_run_rel(input, CharClass::HexDigit, "HexDigit"@) == Ok::<(Seq<char>, I), ErrorModel>((p.0.value@, p.1)),
        }
    }

    fn parse_with_context(input: I, context: &mut ParseOffsetContext) -> (r: ParseResult<(HexDigit<String>, I)>) {
        let (s, rest) = class_run(input, CharClass::HexDigit, "HexDigit")?;
        Ok((HexDigit { value: s.to_owned() }, rest))
    }
}

/// A non-empty run of octal digits, held as `S`.
#[derive(Debug, Clone, PartialEq, Eq, Hash, Default, PartialOrd, Ord)]
pub struct Octal<S> {
    pub value: S,
}

/// [`Octal`] borrowing the matched text.
pub type OctalStr<'a> = Octal<&'a str>;

/// [`Octal`] owning the matched text.
pub type OctalString = Octal<String>;

impl<'a, I: ParseOffsetInput<'a>> Parse<'a, I> for Octal<&'a str> {
    /// The longest non-empty run of the class; see [`class_run_rel`].
    open spec fn parse_rel(input: I, ctx: ContextModel, out: Result<(Octal<&'a str>, I), ErrorModel>) -> bool {
        match out {
            Err(e) => class_run_rel(input, CharClass::Octal, "Octal"@) == Err::<(Seq<char>, I), ErrorModel>(e),
            Ok(p) => class_run_rel(input, CharClass::Octal, "Octal"@) == Ok::<(Seq<char>, I), ErrorModel>((p.0.value@, p.1)),
        }
    }

    fn parse_with_context(input: I, context: &mut ParseOffsetContext) -> (r: ParseResult<(Octal<&'a str>, I)>) {
        let (s, rest) = class_run(input, CharClass::Octal, "Octal")?;
        Ok((Octal { value: s }, rest))
    }
}

impl<'a, I: ParseOffsetInput<'a>> Parse<'a, I> for Octal<String> {
    /// The longest non-empty run of the class, owned; see [`class_run_rel`].
    open spec fn parse_rel(input: I, ctx: ContextModel, out: Result<(Octal<String>, I), ErrorModel>) -> bool {
        match out {
            Err(e) => class_run_rel(input, CharClass::Octal, "Octal"@) == Err::<(Seq<char>, I), ErrorModel>(e),
            Ok(p) => class_run_rel(input, CharClass::Octal, "Octal"@) == Ok::<(Seq<char>, I), ErrorModel>((p.0.value@, p.1)),
        }
    }

    fn parse_with_context(input: I, context: &mut ParseOffsetContext) -> (r: ParseResult<(Octal<String>, I)>) {
        let (s, rest) = class_run(input, CharClass::Octal, "Octal")?;
        Ok((Octal { value: s.to_owned() }, rest))
    }
}

/// A non-empty run of `0` and `1`, held as `S`.
#[derive(Debug, Clone, PartialEq, Eq, Hash, Default, PartialOrd, Ord)]
pub struct Binary<S> {
    pub value: S,
}

/// [`Binary`] borrowing the matched text.
pub type BinaryStr<'a> = Binary<&'a str>;

/// [`Binary`] owning the matched text.
pub type BinaryString = Binary<String>;

impl<'a, I: ParseOffsetInput<'a>> Parse<'a, I> for Binary<&'a str> {
    /// The longest non-empty run of the class; see [`class_run_rel`].
    open spec fn parse_rel(input: I, ctx: ContextModel, out: Result<(Binary<&'a str>, I), ErrorModel>) -> bool {
        match out {
            Err(e) => class_run_rel(input, CharClass::Binary, "Binary"@) == Err::<(Seq<char>, I), ErrorModel>(e),
            Ok(p) => class_run_rel(input, CharClass::Binary, "Binary"@) == Ok::<(Seq<char>, I), ErrorModel>((p.0.value@, p.1)),
        }
    }

    fn parse_with_context(input: I, context: &mut ParseOffsetContext) -> (r: ParseResult<(Binary<&'a str>, I)>) {
        let (s, rest) = class_run(input, CharClass::Binary, "Binary")?;
        Ok((Binary { value: s }, rest))
    }
}

impl<'a, I: ParseOffsetInput<'a>> Parse<'a, I> for Binary<String> {
    /// The longest non-empty run of the class, owned; see [`class_run_rel`].
    open spec fn parse_rel(input: I, ctx: ContextModel, out: Result<(Binary<String>, I), ErrorModel>) -> bool {
        match out {
            Err(e) => class_run_rel(input, CharClass::Binary, "Binary"@) == Err::<(Seq<char>, I), ErrorModel>(e),
            Ok(p) => class_run_rel(input, CharClass::Binary, "Binary"@) == Ok::<(Seq<char>, I), ErrorModel>((p.0.value@, p.1)),
        }
    }

    fn parse_with_context(input: I, context: &mut ParseOffsetContext) -> (r: ParseResult<(Binary<String>, I)>) {
        let (s, rest) = class_run(input, CharClass::Binary, "Binary")?;
        Ok((Binary { value: s.to_owned() }, rest))
    }
}

/// A non-empty run of radix-36 digits, held as `S`.
#[derive(Debug, Clone, PartialEq, Eq, Hash, Default, PartialOrd, Ord)]
pub struct Base36<S> {
    pub value: S,
}

/// [`Base36`] borrowing the matched text.
pub type Base36Str<'a> = Base36<&'a str>;

/// [`Base36`] owning the matched text.
pub type Base36String = Base36<String>;

impl<'a, I: ParseOffsetInput<'a>> Parse<'a, I> for Base36<&'a str> {
    /// The longest non-empty run of the class; see [`class_run_rel`].
    open spec fn parse_rel(input: I, ctx: ContextModel, out: Result<(Base36<&'a str>, I), ErrorModel>) -> bool {
        match out {
            Err(e) => class_run_rel(input, CharClass::Base36, "Base36"@) == Err::<(Seq<char>, I), ErrorModel>(e),
            Ok(p) => class_run_rel(input, CharClass::Base36, "Base36"@) == Ok::<(Seq<char>, I), ErrorModel>((p.0.value@, p.1)),
        }
    }

    fn parse_with_context(input: I, context: &mut ParseOffsetContext) -> (r: ParseResult<(Base36<&'a str>, I)>) {
        let (s, rest) = class_run(input, CharClass::Base36, "Base36")?;
        Ok((Base36 { value: s }, rest))
    }
}

impl<'a, I: ParseOffsetInput<'a>> Parse<'a, I> for Base36<String> {
    /// The longest non-empty run of the class, owned; see [`class_run_rel`].
    open spec fn parse_rel(input: I, ctx: ContextModel, out: Result<(Base36<String>, I), ErrorModel>) -> bool {
        match out {
            Err(e) => class_run_rel(input, CharClass::Base36, "Base36"@) == Err::<(Seq<char>, I), ErrorModel>(e),
            Ok(p) => class_run_rel(input, CharClass::Base36, "Base36"@) == Ok::<(Seq<char>, I), ErrorModel>((p.0.value@, p.1)),
        }
    }

    fn parse_with_context(input: I, context: &mut ParseOffsetContext) -> (r: ParseResult<(Base36<String>, I)>) {
        let (s, rest) = class_run(input, CharClass::Base36, "Base36")?;
        Ok((Base36 { value: s.to_owned() }, rest))
    }
}

/// A non-empty run of base64 characters, held as `S`.
#[derive(Debug, Clone, PartialEq, Eq, Hash, Default, PartialOrd, Ord)]
pub struct Base64<S> {
    pub value: S,
}

/// [`Base64`] borrowing the matched text.
pub type Base64Str<'a> = Base64<&'a str>;

/// [`Base64`] owning the matched text.
pub type Base64String = Base64<String>;

impl<'a, I: ParseOffsetInput<'a>> Parse<'a, I> for Base64<&'a str> {
    /// The longest non-empty run of the class; see [`class_run_rel`].
    open spec fn parse_rel(input: I, ctx: ContextModel, out: Result<(Base64<&'a str>, I), ErrorModel>) -> bool {
        match out {
            Err(e) => class_run_rel(input, CharClass::Base64, "Base64"@) == Err::<(Seq<char>, I), ErrorModel>(e),
            Ok(p) => class_run_rel(input, CharClass::Base64, "Base64"@) == Ok::<(Seq<char>, I), ErrorModel>((p.0.value@, p.1)),
        }
    }

    fn parse_with_context(input: I, context: &mut ParseOffsetContext) -> (r: ParseResult<(Base64<&'a str>, I)>) {
        let (s, rest) = class_run(input, CharClass::Base64, "Base64")?;
        Ok((Base64 { value: s }, rest))
    }
}

impl<'a, I: ParseOffsetInput<'a>> Parse<'a, I> for Base64<String> {
    /// The longest non-empty run of the class, owned; see [`class_run_rel`].
    open spec fn parse_rel(input: I, ctx: ContextModel, out: Result<(Base64<String>, I), ErrorModel>) -> bool {
        match out {
            Err(e) => class_run_rel(input, CharClass::Base64, "Base64"@) == Err::<(Seq<char>, I), ErrorModel>(e),
            Ok(p) => class_run_rel(input, CharClass::Base64, "Base64"@) == Ok::<(Seq<char>, I), ErrorModel>((p.0.value@, p.1)),
        }
    }

    fn parse_with_context(input: I, context: &mut ParseOffsetContext) -> (r: ParseResult<(Base64<String>, I)>) {
        let (s, rest) = class_run(input, CharClass::Base64, "Base64")?;
        Ok((Base64 { value: s.to_owned() }, rest))
    }
}

/// A non-empty run of URL-safe base64 characters, held as `S`.
#[derive(Debug, Clone, PartialEq, Eq, Hash, Default, PartialOrd, Ord)]
pub struct Base64Url<S> {
    pub value: S,
}

/// [`Base64Url`] borrowing the matched text.
pub type Base64UrlStr<'a> = Base64Url<&'a str>;

/// [`Base64Url`] owning the matched text.
pub type Base64UrlString = Base64Url<String>;

impl<'a, I: ParseOffsetInput<'a>> Parse<'a, I> for Base64Url<&'a str> {
    /// The longest non-empty run of the class; see [`class_run_rel`].
    open spec fn parse_rel(input: I, ctx: ContextModel, out: Result<(Base64Url<&'a str>, I), ErrorModel>) -> bool {
        match out {
            Err(e) => class_run_rel(input, CharClass::Base64Url, "Base64Url"@) == Err::<(Seq<char>, I), ErrorModel>(e),
            Ok(p) => class_run_rel(input, CharClass::Base64Url, "Base64Url"@) == Ok::<(Seq<char>, I), ErrorModel>((p.0.value@, p.1)),
        }
    }

    fn parse_with_context(input: I, context: &mut ParseOffsetContext) -> (r: ParseResult<(Base64Url<&'a str>, I)>) {
        let (s, rest) = class_run(input, CharClass::Base64Url, "Base64Url")?;
        Ok((Base64Url { value: s }, rest))
    }
}

impl<'a, I: ParseOffsetInput<'a>> Parse<'a, I> for Base64Url<String> {
    /// The longest non-empty run of the class, owned; see [`class_run_rel`].
    open spec fn parse_rel(input: I, ctx: ContextModel, out: Result<(Base64Url<String>, I), ErrorModel>) -> bool {
        match out {
            Err(e) => class_run_rel(input, CharClass::Base64Url, "Base64Url"@) == Err::<(Seq<char>, I), ErrorModel>(e),
            Ok(p) => class_run_rel(input, CharClass::Base64Url, "Base64Url"@) == Ok::<(Seq<char>, I), ErrorModel>((p.0.value@, p.1)),
        }
    }

    fn parse_with_context(input: I, context: &mut ParseOffsetContext) -> (r: ParseResult<(Base64Url<String>, I)>) {
        let (s, rest) = class_run(input, CharClass::Base64Url, "Base64Url")?;
        Ok((Base64Url { value: s.to_owned() }, rest))
    }
}

/// A non-empty run of control characters, held as `S`.
#[derive(Debug, Clone, PartialEq, Eq, Hash, Default, PartialOrd, Ord)]
pub struct Control<S> {
    pub value: S,
}

/// [`Control`] borrowing the matched text.
pub type ControlStr<'a> = Control<&'a str>;

/// [`Control`] owning the matched text.
pub type ControlString = Control<String>;

impl<'a, I: ParseOffsetInput<'a>> Parse<'a, I> for Control<&'a str> {
    /// The longest non-empty run of the class; see [`class_run_rel`].
    open spec fn parse_rel(input: I, ctx: ContextModel, out: Result<(Control<&'a str>, I), ErrorModel>) -> bool {
        match out {
            Err(e) => class_run_rel(input, CharClass::Control, "Control"@) == Err::<(Seq<char>, I), ErrorModel>(e),
            Ok(p) => class_run_rel(input, CharClass::Control, "Control"@) == Ok::<(Seq<char>, I), ErrorModel>((p.0.value@, p.1)),
        }
    }

    fn parse_with_context(input: I, context: &mut ParseOffsetContext) -> (r: ParseResult<(Control<&'a str>, I)>) {
        let (s, rest) = class_run(input, CharClass::Control, "Control")?;
        Ok((Control { value: s }, rest))
    }
}

impl<'a, I: ParseOffsetInput<'a>> Parse<'a, I> for Control<String> {
    /// The longest non-empty run of the class, owned; see [`class_run_rel`].
    open spec fn parse_rel(input: I, ctx: ContextModel, out: Result<(Control<String>, I), ErrorModel>) -> bool {
        match out {
            Err(e) => class_run_rel(input, CharClass::Control, "Control"@) == Err::<(Seq<char>, I), ErrorModel>(e),
            Ok(p) => class_run_rel(input, CharClass::Control, "Control"@) == Ok::<(Seq<char>, I), ErrorModel>((p.0.value@, p.1)),
        }
    }

    fn parse_with_context(input: I, context: &mut ParseOffsetContext) -> (r: ParseResult<(Control<String>, I)>) {
        let (s, rest) = class_run(input, CharClass::Control, "Control")?;
        Ok((Control { value: s.to_owned() }, rest))
    }
}

/// A non-empty run of ASCII punctuation, held as `S`.
#[derive(Debug, Clone, PartialEq, Eq, Hash, Default, PartialOrd, Ord)]
pub struct Punctuation<S> {
    pub value: S,
}

/// [`Punctuation`] borrowing the matched text.
pub type PunctuationStr<'a> = Punctuation<&'a str>;

/// [`Punctuation`] owning the matched text.
pub type PunctuationString = Punctuation<String>;

impl<'a, I: ParseOffsetInput<'a>> Parse<'a, I> for Punctuation<&'a str> {
    /// The longest non-empty run of the class; see [`class_run_rel`].
    open spec fn parse_rel(input: I, ctx: ContextModel, out: Result<(Punctuation<&'a str>, I), ErrorModel>) -> bool {
        match out {
            Err(e) => class_run_rel(input, CharClass::Punctuation, "Punctuation"@) == Err::<(Seq<char>, I), ErrorModel>(e),
            Ok(p) => class_run_rel(input, CharClass::Punctuation, "Punctuation"@) == Ok::<(Seq<char>, I), ErrorModel>((p.0.value@, p.1)),
        }
    }

    fn parse_with_context(input: I, context: &mut ParseOffsetContext) -> (r: ParseResult<(Punctuation<&'a str>, I)>) {
        let (s, rest) = class_run(input, CharClass::Punctuation, "Punctuation")?;
        Ok((Punctuation { value: s }, rest))
    }
}

impl<'a, I: ParseOffsetInput<'a>> Parse<'a, I> for Punctuation<String> {
    /// The longest non-empty run of the class, owned; see [`class_run_rel`].
    open spec fn parse_rel(input: I, ctx: ContextModel, out: Result<(Punctuation<String>, I), ErrorModel>) -> bool {
        match out {
            Err(e) => class_run_rel(input, CharClass::Punctuation, "Punctuation"@) == Err::<(Seq<char>, I), ErrorModel>(e),
            Ok(p) => class_run_rel(input, CharClass::Punctuation, "Punctuation"@) == Ok::<(Seq<char>, I), ErrorModel>((p.0.value@, p.1)),
        }
    }

    fn parse_with_context(input: I, context: &mut ParseOffsetContext) -> (r: ParseResult<(Punctuation<String>, I)>) {
        let (s, rest) = class_run(input, CharClass::Punctuation, "Punctuation")?;
        Ok((Punctuation { value: s.to_owned() }, rest))
    }
}

/// A non-empty run of ASCII graphic characters, held as `S`.
#[derive(Debug, Clone, PartialEq, Eq, Hash, Default, PartialOrd, Ord)]
pub struct Graph<S> {
    pub value: S,
}

/// [`Graph`] borrowing the matched text.
pub type GraphStr<'a> = Graph<&'a str>;

/// [`Graph`] owning the matched text.
pub type GraphString = Graph<String>;

impl<'a, I: ParseOffsetInput<'a>> Parse<'a, I> for Graph<&'a str> {
    /// The longest non-empty run of the class; see [`class_run_rel`].
    open spec fn parse_rel(input: I, ctx: ContextModel, out: Result<(Graph<&'a str>, I), ErrorModel>) -> bool {
        match out {
            Err(e) => class_run_rel(input, CharClass::Graph, "Graph"@) == Err::<(Seq<char>, I), ErrorModel>(e),
            Ok(p) => class_run_rel(input, CharClass::Graph, "Graph"@) == Ok::<(Seq<char>, I), ErrorModel>((p.0.value@, p.1)),
        }
    }

    fn parse_with_context(input: I, context: &mut ParseOffsetContext) -> (r: ParseResult<(Graph<&'a str>, I)>) {
        let (s, rest) = class_run(input, CharClass::Graph, "Graph")?;
        Ok((Graph { value: s }, rest))
    }
}

impl<'a, I: ParseOffsetInput<'a>> Parse<'a, I> for Graph<String> {
    /// The longest non-empty run of the class, owned; see [`class_run_rel`].
    open spec fn parse_rel(input: I, ctx: ContextModel, out: Result<(Graph<String>, I), ErrorModel>) -> bool {
        match out {
            Err(e) => class_run_rel(input, CharClass::Graph, "Graph"@) == Err::<(Seq<char>, I), ErrorModel>(e),
            Ok(p) => class_run_rel(input, CharClass::Graph, "Graph"@) == Ok::<(Seq<char>, I), ErrorModel>((p.0.value@, p.1)),
        }
    }

    fn parse_with_context(input: I, context: &mut ParseOffsetContext) -> (r: ParseResult<(Graph<String>, I)>) {
        let (s, rest) = class_run(input, CharClass::Graph, "Graph")?;
        Ok((Graph { value: s.to_owned() }, rest))
    }
}

/// A non-empty run of uppercase characters, held as `S`.
#[derive(Debug, Clone, PartialEq, Eq, Hash, Default, PartialOrd, Ord)]
pub struct Upper<S> {
    pub value: S,
}

/// [`Upper`] borrowing the matched text.
pub type UpperStr<'a> = Upper<&'a str>;

/// [`Upper`] owning the matched text.
pub type UpperString = Upper<String>;

impl<'a, I: ParseOffsetInput<'a>> Parse<'a, I> for Upper<&'a str> {
    /// The longest non-empty run of the class; see [`class_run_rel`].
    open spec fn parse_rel(input: I, ctx: ContextModel, out: Result<(Upper<&'a str>, I), ErrorModel>) -> bool {
        match out {
            Err(e) => class_run_rel(input, CharClass::Upper, "Upper"@) == Err::<(Seq<char>, I), ErrorModel>(e),
            Ok(p) => class_run_rel(input, CharClass::Upper, "Upper"@) == Ok::<(Seq<char>, I), ErrorModel>((p.0.value@, p.1)),
        }
    }

    fn parse_with_context(input: I, context: &mut ParseOffsetContext) -> (r: ParseResult<(Upper<&'a str>, I)>) {
        let (s, rest) = class_run(input, CharClass::Upper, "Upper")?;
        Ok((Upper { value: s }, rest))
    }
}

impl<'a, I: ParseOffsetInput<'a>> Parse<'a, I> for Upper<String> {
    /// The longest non-empty run of the class, owned; see [`class_run_rel`].
    open spec fn parse_rel(input: I, ctx: ContextModel, out: Result<(Upper<String>, I), ErrorModel>) -> bool {
        match out {
            Err(e) => class_run_rel(input, CharClass::Upper, "Upper"@) == Err::<(Seq<char>, I), ErrorModel>(e),
            Ok(p) => class_run_rel(input, CharClass::Upper, "Upper"@) == Ok::<(Seq<char>, I), ErrorModel>((p.0.value@, p.1)),
        }
    }

    fn parse_with_context(input: I, context: &mut ParseOffsetContext) -> (r: ParseResult<(Upper<String>, I)>) {
        let (s, rest) = class_run(input, CharClass::Upper, "Upper")?;
        Ok((Upper { value: s.to_owned() }, rest))
    }
}

/// A non-empty run of lowercase characters, held as `S`.
#[derive(Debug, Clone, PartialEq, Eq, Hash, Default, PartialOrd, Ord)]
pub struct Lower<S> {
    pub value: S,
}

/// [`Lower`] borrowing the matched text.
pub type LowerStr<'a> = Lower<&'a str>;

/// [`Lower`] owning the matched text.
pub type LowerString = Lower<String>;

impl<'a, I: ParseOffsetInput<'a>> Parse<'a, I> for Lower<&'a str> {
    /// The longest non-empty run of the class; see [`class_run_rel`].
    open spec fn parse_rel(input: I, ctx: ContextModel, out: Result<(Lower<&'a str>, I), ErrorModel>) -> bool {
        match out {
            Err(e) => class_run_rel(input, CharClass::Lower, "Lower"@) == Err::<(Seq<char>, I), ErrorModel>(e),
            Ok(p) => class_run_rel(input, CharClass::Lower, "Lower"@) == Ok::<(Seq<char>, I), ErrorModel>((p.0.value@, p.1)),
        }
    }

    fn parse_with_context(input: I, context: &mut ParseOffsetContext) -> (r: ParseResult<(Lower<&'a str>, I)>) {
        let (s, rest) = class_run(input, CharClass::Lower, "Lower")?;
        Ok((Lower { value: s }, rest))
    }
}

impl<'a, I: ParseOffsetInput<'a>> Parse<'a, I> for Lower<String> {
    /// The longest non-empty run of the class, owned; see [`class_run_rel`].
    open spec fn parse_rel(input: I, ctx: ContextModel, out: Result<(Lower<String>, I), ErrorModel>) -> bool {
        match out {
            Err(e) => class_run_rel(input, CharClass::Lower, "Lower"@) == Err::<(Seq<char>, I), ErrorModel>(e),
            Ok(p) => class_run_rel(input, CharClass::Lower, "Lower"@) == Ok::<(Seq<char>, I), ErrorModel>((p.0.value@, p.1)),
        }
    }

    fn parse_with_context(input: I, context: &mut ParseOffsetContext) -> (r: ParseResult<(Lower<String>, I)>) {
        let (s, rest) = class_run(input, CharClass::Lower, "Lower")?;
        Ok((Lower { value: s.to_owned() }, rest))
    }
}

/// A non-empty run of ASCII characters, held as `S`.
#[derive(Debug, Clone, PartialEq, Eq, Hash, Default, PartialOrd, Ord)]
pub struct Ascii<S> {
    pub value: S,
}

/// [`Ascii`] borrowing the matched text.
pub type AsciiStr<'a> = Ascii<&'a str>;

/// [`Ascii`] owning the matched text.
pub type AsciiString = Ascii<String>;

impl<'a, I: ParseOffsetInput<'a>> Parse<'a, I> for Ascii<&'a str> {
    /// The longest non-empty run of the class; see [`class_run_rel`].
    open spec fn parse_rel(input: I, ctx: ContextModel, out: Result<(Ascii<&'a str>, I), ErrorModel>) -> bool {
        match out {
            Err(e) => class_run_rel(input, CharClass::Ascii, "Ascii"@) == Err::<(Seq<char>, I), ErrorModel>(e),
            Ok(p) => class_run_rel(input, CharClass::Ascii, "Ascii"@) == Ok::<(Seq<char>, I), ErrorModel>((p.0.value@, p.1)),
        }
    }

    fn parse_with_context(input: I, context: &mut ParseOffsetContext) -> (r: ParseResult<(Ascii<&'a str>, I)>) {
        let (s, rest) = class_run(input, CharClass::Ascii, "Ascii")?;
        Ok((Ascii { value: s }, rest))
    }
}

impl<'a, I: ParseOffsetInput<'a>> Parse<'a, I> for Ascii<String> {
    /// The longest non-empty run of the class, owned; see [`class_run_rel`].
    open spec fn parse_rel(input: I, ctx: ContextModel, out: Result<(Ascii<String>, I), ErrorModel>) -> bool {
        match out {
            Err(e) => class_run_rel(input, CharClass::Ascii, "Ascii"@) == Err::<(Seq<char>, I), ErrorModel>(e),
            Ok(p) => class_run_rel(input, CharClass::Ascii, "Ascii"@) == Ok::<(Seq<char>, I), ErrorModel>((p.0.value@, p.1)),
        }
    }

    fn parse_with_context(input: I, context: &mut ParseOffsetContext) -> (r: ParseResult<(Ascii<String>, I)>) {
        let (s, rest) = class_run(input, CharClass::Ascii, "Ascii")?;
        Ok((Ascii { value: s.to_owned() }, rest))
    }
}

/// A non-empty run of non-ASCII characters, held as `S`.
#[derive(Debug, Clone, PartialEq, Eq, Hash, Default, PartialOrd, Ord)]
pub struct NonAscii<S> {
    pub value: S,
}

/// [`NonAscii`] borrowing the matched text.
pub type NonAsciiStr<'a> = NonAscii<&'a str>;

/// [`NonAscii`] owning the matched text.
pub type NonAsciiString = NonAscii<String>;

impl<'a, I: ParseOffsetInput<'a>> Parse<'a, I> for NonAscii<&'a str> {
    /// The longest non-empty run of the class; see [`class_run_rel`].
    open spec fn parse_rel(input: I, ctx: ContextModel, out: Result<(NonAscii<&'a str>, I), ErrorModel>) -> bool {
        match out {
            Err(e) => class_run_rel(input, CharClass::NonAscii, "NonAscii"@) == Err::<(Seq<char>, I), ErrorModel>(e),
            Ok(p) => class_run_rel(input, CharClass::NonAscii, "NonAscii"@) == Ok::<(Seq<char>, I), ErrorModel>((p.0.value@, p.1)),
        }
    }

    fn parse_with_context(input: I, context: &mut ParseOffsetContext) -> (r: ParseResult<(NonAscii<&'a str>, I)>) {
        let (s, rest) = class_run(input, CharClass::NonAscii, "NonAscii")?;
        Ok((NonAscii { value: s }, rest))
    }
}

impl<'a, I: ParseOffsetInput<'a>> Parse<'a, I> for NonAscii<String> {
    /// The longest non-empty run of the class, owned; see [`class_run_rel`].
    open spec fn parse_rel(input: I, ctx: ContextModel, out: Result<(NonAscii<String>, I), ErrorModel>) -> bool {
        match out {
            Err(e) => class_run_rel(input, CharClass::NonAscii, "NonAscii"@) == Err::<(Seq<char>, I), ErrorModel>(e),
            Ok(p) => class_run_rel(input, CharClass::NonAscii, "NonAscii"@) == Ok::<(Seq<char>, I), ErrorModel>((p.0.value@, p.1)),
        }
    }

    fn parse_with_context(input: I, context: &mut ParseOffsetContext) -> (r: ParseResult<(NonAscii<String>, I)>) {
        let (s, rest) = class_run(input, CharClass::NonAscii, "NonAscii")?;
        Ok((NonAscii { value: s.to_owned() }, rest))
    }
}

// ---------------------------------------------------------------------------
// Text up to a token
// ---------------------------------------------------------------------------

/// The text up to the first occurrence of the token `T`, or all of the input when it does
/// not occur; the token itself is not consumed.
#[derive(Debug, PartialEq, Eq, Hash)]
pub struct TakeTillToken<T> {
    pub value: String,
    _marker: PhantomData<T>,
}

impl<T> TakeTillToken<T> {
    /// The text.
    pub closed spec fn spec_text(self) -> Seq<char> {
        self.value@
    }

    /// The text, by value.
    pub fn into_inner(self) -> (r: String)
        ensures
            r@ == self.spec_text(),
    {
        self.value
    }
}

/// What taking the text up to `token` gives: the text and the input from the token on (or
/// the end of the input).
pub open spec fn take_till_token_rel<'a, I: ParseOffsetInput<'a>>(input: I, token: Seq<char>) -> Result<
    (Seq<char>, I),
    ErrorModel,
> {
    match input.spec_find(token) {
        Err(e) => Err(e),
        Ok(Some(at)) => match input.spec_slice_to(at) {
            Err(e) => Err(e),
            Ok(segment) => match segment.spec_take_while(CharClass::Any) {
                Err(e) => Err(e),
                Ok((text, _)) => Ok((text, at)),
            },
        },
        Ok(None) => input.spec_take_while(CharClass::Any),
    }
}

impl<'a, I: ParseOffsetInput<'a>, T: Token> Parse<'a, I> for TakeTillToken<T> {
    /// The text before the token; see [`take_till_token_rel`].
    open spec fn parse_rel(input: I, ctx: ContextModel, out: Result<(TakeTillToken<T>, I), ErrorModel>) -> bool {
        match out {
            Err(e) => take_till_token_rel(input, T::spec_value()) == Err::<(Seq<char>, I), ErrorModel>(e),
            Ok(p) => take_till_token_rel(input, T::spec_value()) == Ok::<(Seq<char>, I), ErrorModel>(
                (p.0.spec_text(), p.1),
            ),
        }
    }

    fn parse_with_context(input: I, context: &mut ParseOffsetContext) -> (r: ParseResult<
        (TakeTillToken<T>, I),
    >) {
        match input.find(T::value())? {
            Some(at) => {
                let segment = input.slice_to(at)?;
                let (text, _) = segment.take_while(CharClass::Any)?;
                Ok((TakeTillToken { value: text.to_owned(), _marker: PhantomData }, at))
            },
            None => {
                let (text, end) = input.take_while(CharClass::Any)?;
                Ok((TakeTillToken { value: text.to_owned(), _marker: PhantomData }, end))
            },
        }
    }
}

// ---------------------------------------------------------------------------
// Integers
// ---------------------------------------------------------------------------

/// The value of the ASCII digit `c` (zero for any other character).
pub open spec fn digit_value(c: char) -> nat {
    if '0' <= c <= '9' {
        ((c as u32) - ('0' as u32)) as nat
    } else {
        0
    }
}

/// The value of the decimal numeral `s`.
pub open spec fn decimal_value(s: Seq<char>) -> nat
    decreases s.len(),
{
    if s.len() == 0 {
        0
    } else {
        decimal_value(s.drop_last()) * 10 + digit_value(s.last())
    }
}

/// The value of the decimal numeral `s` when it is at most `max`.
pub fn parse_decimal(s: &str, max: u128) -> (r: Option<u128>)
    ensures
        r == (if decimal_value(s@) <= max { Some(decimal_value(s@) as u128) } else { None::<u128> }),
{
    let mut acc: u128 = 0;
    let mut over = false;
    for c in iter: s.chars()
        invariant
            iter.seq() == s@,
            over == (decimal_value(s@.take(iter.index() as int)) > max),
            !over ==> acc == decimal_value(s@.take(iter.index() as int)),
    {
        let ghost i = iter.index() as int;
        assert(s@[i] == c);
        assert(s@.take(i + 1).drop_last() =~= s@.take(i));
        assert(s@.take(i + 1).last() == c);
        let d: u128 = if '0' <= c && c <= '9' {
            (c as u32 - '0' as u32) as u128
        } else {
            0
        };
        if !over {
            match acc.checked_mul(10) {
                None => {
                    over = true;
                },
                Some(t) => match t.checked_add(d) {
                    None => {
                        over = true;
                    },
                    Some(v) => {
                        if v > max {
                            over = true;
                        } else {
                            acc = v;
                        }
                    },
                },
            }
        }
    }
    assert(s@.take(s@.len() as int) =~= s@);
    if over {
        None
    } else {
        Some(acc)
    }
}

/// What parsing a run of ASCII digits gives: the digits and the input after them.
pub open spec fn digits_rel<'a, I: ParseOffsetInput<'a>>(input: I) -> Result<(Seq<char>, I), ErrorModel> {
    class_run_rel(input, CharClass::Digit, "Digit"@)
}

/// The sign and body of a signed numeral: after whitespace, an optional `-` or `+`.
pub open spec fn sign_rel<'a, I: ParseOffsetInput<'a>>(input: I) -> Result<(bool, I), ErrorModel> {
    let t = input.spec_trim_start();
    match t.spec_strip_prefix("-"@) {
        Err(e) => Err(e),
        Ok(Some(r)) => Ok((true, r)),
        Ok(None) => match t.spec_strip_prefix("+"@) {
            Err(e) => Err(e),
            Ok(Some(r)) => Ok((false, r)),
            Ok(None) => Ok((false, t)),
        },
    }
}

/// Skips whitespace and an optional sign; `true` when the sign is `-`.
pub fn parse_sign<'a, I: ParseOffsetInput<'a>>(input: I) -> (r: ParseResult<(bool, I)>)
    ensures
        crate::input::res_model(r) == sign_rel(input),
{
    let t = input.trim_start();
    proof {
        reveal_strlit("-");
        reveal_strlit("+");
    }
    if let Some(r) = t.strip_prefix("-")? {
        return Ok((true, r));
    }
    if let Some(r) = t.strip_prefix("+")? {
        return Ok((false, r));
    }
    Ok((false, t))
}

impl<'a, I: ParseOffsetInput<'a>> Parse<'a, I> for u8 {
    /// A run of ASCII digits read in decimal; a value above `u8::MAX` is an error.
    open spec fn parse_rel(input: I, ctx: ContextModel, out: Result<(u8, I), ErrorModel>) -> bool {
        match digits_rel(input) {
            Err(e) => out == Err::<(u8, I), ErrorModel>(e),
            Ok((d, rest)) => if decimal_value(d) <= u8::MAX {
                out == Ok::<(u8, I), ErrorModel>((decimal_value(d) as u8, rest))
            } else {
                out == Err::<(u8, I), ErrorModel>(ErrorModel::Custom(expected_found("u8"@, d)))
            },
        }
    }

    fn parse_with_context(input: I, context: &mut ParseOffsetContext) -> (r: ParseResult<(u8, I)>) {
        let (d, rest) = class_run(input, CharClass::Digit, "Digit")?;
        match parse_decimal(d, u8::MAX as u128) {
            Some(v) => Ok((v as u8, rest)),
            None => Err(ParseError::custom_owned(expected_found_message("u8", d))),
        }
    }
}

impl<'a, I: ParseOffsetInput<'a>> Parse<'a, I> for u16 {
    /// A run of ASCII digits read in decimal; a value above `u16::MAX` is an error.
    open spec fn parse_rel(input: I, ctx: ContextModel, out: Result<(u16, I), ErrorModel>) -> bool {
        match digits_rel(input) {
            Err(e) => out == Err::<(u16, I), ErrorModel>(e),
            Ok((d, rest)) => if decimal_value(d) <= u16::MAX {
                out == Ok::<(u16, I), ErrorModel>((decimal_value(d) as u16, rest))
            } else {
                out == Err::<(u16, I), ErrorModel>(ErrorModel::Custom(expected_found("u16"@, d)))
            },
        }
    }

    fn parse_with_context(input: I, context: &mut ParseOffsetContext) -> (r: ParseResult<(u16, I)>) {
        let (d, rest) = class_run(input, CharClass::Digit, "Digit")?;
        match parse_decimal(d, u16::MAX as u128) {
            Some(v) => Ok((v as u16, rest)),
            None => Err(ParseError::custom_owned(expected_found_message("u16", d))),
        }
    }
}

impl<'a, I: ParseOffsetInput<'a>> Parse<'a, I> for u32 {
    /// A run of ASCII digits read in decimal; a value above `u32::MAX` is an error.
    open spec fn parse_rel(input: I, ctx: ContextModel, out: Result<(u32, I), ErrorModel>) -> bool {
        match digits_rel(input) {
            Err(e) => out == Err::<(u32, I), ErrorModel>(e),
            Ok((d, rest)) => if decimal_value(d) <= u32::MAX {
                out == Ok::<(u32, I), ErrorModel>((decimal_value(d) as u32, rest))
            } else {
                out == Err::<(u32, I), ErrorModel>(ErrorModel::Custom(expected_found("u32"@, d)))
            },
        }
    }

    fn parse_with_context(input: I, context: &mut ParseOffsetContext) -> (r: ParseResult<(u32, I)>) {
        let (d, rest) = class_run(input, CharClass::Digit, "Digit")?;
        match parse_decimal(d, u32::MAX as u128) {
            Some(v) => Ok((v as u32, rest)),
            None => Err(ParseError::custom_owned(expected_found_message("u32", d))),
        }
    }
}

impl<'a, I: ParseOffsetInput<'a>> Parse<'a, I> for u64 {
    /// A run of ASCII digits read in decimal; a value above `u64::MAX` is an error.
    open spec fn parse_rel(input: I, ctx: ContextModel, out: Result<(u64, I), ErrorModel>) -> bool {
        match digits_rel(input) {
            Err(e) => out == Err::<(u64, I), ErrorModel>(e),
            Ok((d, rest)) => if decimal_value(d) <= u64::MAX {
                out == Ok::<(u64, I), ErrorModel>((decimal_value(d) as u64, rest))
            } else {
                out == Err::<(u64, I), ErrorModel>(ErrorModel::Custom(expected_found("u64"@, d)))
            },
        }
    }

    fn parse_with_context(input: I, context: &mut ParseOffsetContext) -> (r: ParseResult<(u64, I)>) {
        let (d, rest) = class_run(input, CharClass::Digit, "Digit")?;
        match parse_decimal(d, u64::MAX as u128) {
            Some(v) => Ok((v as u64, rest)),
            None => Err(ParseError::custom_owned(expected_found_message("u64", d))),
        }
    }
}

impl<'a, I: ParseOffsetInput<'a>> Parse<'a, I> for u128 {
    /// A run of ASCII digits read in decimal; a value above `u128::MAX` is an error.
    open spec fn parse_rel(input: I, ctx: ContextModel, out: Result<(u128, I), ErrorModel>) -> bool {
        match digits_rel(input) {
            Err(e) => out == Err::<(u128, I), ErrorModel>(e),
            Ok((d, rest)) => if decimal_value(d) <= u128::MAX {
                out == Ok::<(u128, I), ErrorModel>((decimal_value(d) as u128, rest))
            } else {
                out == Err::<(u128, I), ErrorModel>(ErrorModel::Custom(expected_found("u128"@, d)))
            },
        }
    }

    fn parse_with_context(input: I, context: &mut ParseOffsetContext) -> (r: ParseResult<(u128, I)>) {
        let (d, rest) = class_run(input, CharClass::Digit, "Digit")?;
        match parse_decimal(d, u128::MAX as u128) {
            Some(v) => Ok((v as u128, rest)),
            None => Err(ParseError::custom_owned(expected_found_message("u128", d))),
        }
    }
}

impl<'a, I: ParseOffsetInput<'a>> Parse<'a, I> for usize {
    /// A run of ASCII digits read in decimal; a value above `usize::MAX` is an error.
    open spec fn parse_rel(input: I, ctx: ContextModel, out: Result<(usize, I), ErrorModel>) -> bool {
        match digits_rel(input) {
            Err(e) => out == Err::<(usize, I), ErrorModel>(e),
            Ok((d, rest)) => if decimal_value(d) <= usize::MAX {
                out == Ok::<(usize, I), ErrorModel>((decimal_value(d) as usize, rest))
            } else {
                out == Err::<(usize, I), ErrorModel>(ErrorModel::Custom(expected_found("usize"@, d)))
            },
        }
    }

    fn parse_with_context(input: I, context: &mut ParseOffsetContext) -> (r: ParseResult<(usize, I)>) {
        let (d, rest) = class_run(input, CharClass::Digit, "Digit")?;
        match parse_decimal(d, usize::MAX as u128) {
            Some(v) => Ok((v as usize, rest)),
            None => Err(ParseError::custom_owned(expected_found_message("usize", d))),
        }
    }
}

impl<'a, I: ParseOffsetInput<'a>> Parse<'a, I> for i8 {
    /// Whitespace, an optional sign, then a run of ASCII digits read in decimal; a magnitude
    /// above `i8::MAX` is an error.
    open spec fn parse_rel(input: I, ctx: ContextModel, out: Result<(i8, I), ErrorModel>) -> bool {
        match sign_rel(input) {
            Err(e) => out == Err::<(i8, I), ErrorModel>(e),
            Ok((neg, body)) => match digits_rel(body) {
                Err(e) => out == Err::<(i8, I), ErrorModel>(e),
                Ok((d, rest)) => if decimal_value(d) <= i8::MAX {
                    out == Ok::<(i8, I), ErrorModel>((
                        (if neg { -(decimal_value(d) as int) } else { decimal_value(d) as int }) as i8,
                        rest,
                    ))
                } else {
                    out == Err::<(i8, I), ErrorModel>(ErrorModel::Custom(expected_found("i8"@, d)))
                },
            },
        }
    }

    fn parse_with_context(input: I, context: &mut ParseOffsetContext) -> (r: ParseResult<(i8, I)>) {
        let (neg, body) = parse_sign(input)?;
        let (d, rest) = class_run(body, CharClass::Digit, "Digit")?;
        match parse_decimal(d, i8::MAX as u128) {
            Some(v) => {
                let n = v as i8;
                if neg {
                    Ok((-n, rest))
                } else {
                    Ok((n, rest))
                }
            },
            None => Err(ParseError::custom_owned(expected_found_message("i8", d))),
        }
    }
}

impl<'a, I: ParseOffsetInput<'a>> Parse<'a, I> for i16 {
    /// Whitespace, an optional sign, then a run of ASCII digits read in decimal; a magnitude
    /// above `i16::MAX` is an error.
    open spec fn parse_rel(input: I, ctx: ContextModel, out: Result<(i16, I), ErrorModel>) -> bool {
        match sign_rel(input) {
            Err(e) => out == Err::<(i16, I), ErrorModel>(e),
            Ok((neg, body)) => match digits_rel(body) {
                Err(e) => out == Err::<(i16, I), ErrorModel>(e),
                Ok((d, rest)) => if decimal_value(d) <= i16::MAX {
                    out == Ok::<(i16, I), ErrorModel>((
                        (if neg { -(decimal_value(d) as int) } else { decimal_value(d) as int }) as i16,
                        rest,
                    ))
                } else {
                    out == Err::<(i16, I), ErrorModel>(ErrorModel::Custom(expected_found("i16"@, d)))
                },
            },
        }
    }

    fn parse_with_context(input: I, context: &mut ParseOffsetContext) -> (r: ParseResult<(i16, I)>) {
        let (neg, body) = parse_sign(input)?;
        let (d, rest) = class_run(body, CharClass::Digit, "Digit")?;
        match parse_decimal(d, i16::MAX as u128) {
            Some(v) => {
                let n = v as i16;
                if neg {
                    Ok((-n, rest))
                } else {
                    Ok((n, rest))
                }
            },
            None => Err(ParseError::custom_owned(expected_found_message("i16", d))),
        }
    }
}

impl<'a, I: ParseOffsetInput<'a>> Parse<'a, I> for i32 {
    /// Whitespace, an optional sign, then a run of ASCII digits read in decimal; a magnitude
    /// above `i32::MAX` is an error.
    open spec fn parse_rel(input: I, ctx: ContextModel, out: Result<(i32, I), ErrorModel>) -> bool {
        match sign_rel(input) {
            Err(e) => out == Err::<(i32, I), ErrorModel>(e),
            Ok((neg, body)) => match digits_rel(body) {
                Err(e) => out == Err::<(i32, I), ErrorModel>(e),
                Ok((d, rest)) => if decimal_value(d) <= i32::MAX {
                    out == Ok::<(i32, I), ErrorModel>((
                        (if neg { -(decimal_value(d) as int) } else { decimal_value(d) as int }) as i32,
                        rest,
                    ))
                } else {
                    out == Err::<(i32, I), ErrorModel>(ErrorModel::Custom(expected_found("i32"@, d)))
                },
            },
        }
    }

    fn parse_with_context(input: I, context: &mut ParseOffsetContext) -> (r: ParseResult<(i32, I)>) {
        let (neg, body) = parse_sign(input)?;
        let (d, rest) = class_run(body, CharClass::Digit, "Digit")?;
        match parse_decimal(d, i32::MAX as u128) {
            Some(v) => {
                let n = v as i32;
                if neg {
                    Ok((-n, rest))
                } else {
                    Ok((n, rest))
                }
            },
            None => Err(ParseError::custom_owned(expected_found_message("i32", d))),
        }
    }
}

impl<'a, I: ParseOffsetInput<'a>> Parse<'a, I> for i64 {
    /// Whitespace, an optional sign, then a run of ASCII digits read in decimal; a magnitude
    /// above `i64::MAX` is an error.
    open spec fn parse_rel(input: I, ctx: ContextModel, out: Result<(i64, I), ErrorModel>) -> bool {
        match sign_rel(input) {
            Err(e) => out == Err::<(i64, I), ErrorModel>(e),
            Ok((neg, body)) => match digits_rel(body) {
                Err(e) => out == Err::<(i64, I), ErrorModel>(e),
                Ok((d, rest)) => if decimal_value(d) <= i64::MAX {
                    out == Ok::<(i64, I), ErrorModel>((
                        (if neg { -(decimal_value(d) as int) } else { decimal_value(d) as int }) as i64,
                        rest,
                    ))
                } else {
                    out == Err::<(i64, I), ErrorModel>(ErrorModel::Custom(expected_found("i64"@, d)))
                },
            },
        }
    }

    fn parse_with_context(input: I, context: &mut ParseOffsetContext) -> (r: ParseResult<(i64, I)>) {
        let (neg, body) = parse_sign(input)?;
        let (d, rest) = class_run(body, CharClass::Digit, "Digit")?;
        match parse_decimal(d, i64::MAX as u128) {
            Some(v) => {
                let n = v as i64;
                if neg {
                    Ok((-n, rest))
                } else {
                    Ok((n, rest))
                }
            },
            None => Err(ParseError::custom_owned(expected_found_message("i64", d))),
        }
    }
}

impl<'a, I: ParseOffsetInput<'a>> Parse<'a, I> for i128 {
    /// Whitespace, an optional sign, then a run of ASCII digits read in decimal; a magnitude
    /// above `i128::MAX` is an error.
    open spec fn parse_rel(input: I, ctx: ContextModel, out: Result<(i128, I), ErrorModel>) -> bool {
        match sign_rel(input) {
            Err(e) => out == Err::<(i128, I), ErrorModel>(e),
            Ok((neg, body)) => match digits_rel(body) {
                Err(e) => out == Err::<(i128, I), ErrorModel>(e),
                Ok((d, rest)) => if decimal_value(d) <= i128::MAX {
                    out == Ok::<(i128, I), ErrorModel>((
                        (if neg { -(decimal_value(d) as int) } else { decimal_value(d) as int }) as i128,
                        rest,
                    ))
                } else {
                    out == Err::<(i128, I), ErrorModel>(ErrorModel::Custom(expected_found("i128"@, d)))
                },
            },
        }
    }

    fn parse_with_context(input: I, context: &mut ParseOffsetContext) -> (r: ParseResult<(i128, I)>) {
        let (neg, body) = parse_sign(input)?;
        let (d, rest) = class_run(body, CharClass::Digit, "Digit")?;
        match parse_decimal(d, i128::MAX as u128) {
            Some(v) => {
                let n = v as i128;
                if neg {
                    Ok((-n, rest))
                } else {
                    Ok((n, rest))
                }
            },
            None => Err(ParseError::custom_owned(expected_found_message("i128", d))),
        }
    }
}

impl<'a, I: ParseOffsetInput<'a>> Parse<'a, I> for isize {
    /// Whitespace, an optional sign, then a run of ASCII digits read in decimal; a magnitude
    /// above `isize::MAX` is an error.
    open spec fn parse_rel(input: I, ctx: ContextModel, out: Result<(isize, I), ErrorModel>) -> bool {
        match sign_rel(input) {
            Err(e) => out == Err::<(isize, I), ErrorModel>(e),
            Ok((neg, body)) => match digits_rel(body) {
                Err(e) => out == Err::<(isize, I), ErrorModel>(e),
                Ok((d, rest)) => if decimal_value(d) <= isize::MAX {
                    out == Ok::<(isize, I), ErrorModel>((
                        (if neg { -(decimal_value(d) as int) } else { decimal_value(d) as int }) as isize,
                        rest,
                    ))
                } else {
                    out == Err::<(isize, I), ErrorModel>(ErrorModel::Custom(expected_found("isize"@, d)))
                },
            },
        }
    }

    fn parse_with_context(input: I, context: &mut ParseOffsetContext) -> (r: ParseResult<(isize, I)>) {
        let (neg, body) = parse_sign(input)?;
        let (d, rest) = class_run(body, CharClass::Digit, "Digit")?;
        match parse_decimal(d, isize::MAX as u128) {
            Some(v) => {
                let n = v as isize;
                if neg {
                    Ok((-n, rest))
                } else {
                    Ok((n, rest))
                }
            },
            None => Err(ParseError::custom_owned(expected_found_message("isize", d))),
        }
    }
}

// ---------------------------------------------------------------------------
// Booleans and characters
// ---------------------------------------------------------------------------

/// What parsing a boolean gives: `true` or `false` by the literal the input starts with.
pub open spec fn bool_rel<'a, I: ParseOffsetInput<'a>>(input: I) -> Result<(bool, I), ErrorModel> {
    match input.spec_strip_prefix("true"@) {
        Err(e) => Err(e),
        Ok(Some(r)) => Ok((true, r)),
        Ok(None) => match input.spec_strip_prefix("false"@) {
            Err(e) => Err(e),
            Ok(Some(r)) => Ok((false, r)),
            Ok(None) => Err(
                ErrorModel::Custom("expected 'true' or 'false', found '"@ + input.spec_display() + "'"@),
            ),
        },
    }
}

impl<'a, I: ParseOffsetInput<'a>> Parse<'a, I> for bool {
    /// The literal `true` or `false`; see [`bool_rel`].
    open spec fn parse_rel(input: I, ctx: ContextModel, out: Result<(bool, I), ErrorModel>) -> bool {
        out == bool_rel(input)
    }

    fn parse_with_context(input: I, context: &mut ParseOffsetContext) -> (r: ParseResult<(bool, I)>) {
        proof {
            reveal_strlit("true");
            reveal_strlit("false");
        }
        if let Some(rest) = input.strip_prefix("true")? {
            return Ok((true, rest));
        }
        if let Some(rest) = input.strip_prefix("false")? {
            return Ok((false, rest));
        }
        let mut m = String::new();
        m.append("expected 'true' or 'false', found '");
        let shown = input.display();
        m.append(shown.as_str());
        m.append("'");
        proof {
            reveal_strlit("expected 'true' or 'false', found '");
            reveal_strlit("'");
            assert(m@ =~= "expected 'true' or 'false', found '"@ + input.spec_display() + "'"@);
        }
        Err(ParseError::custom_owned(m))
    }
}

impl<'a, I: ParseOffsetInput<'a>> Parse<'a, I> for char {
    /// The first character; at the end of the input, an unexpected-end error at the current
    /// offset.
    open spec fn parse_rel(input: I, ctx: ContextModel, out: Result<(char, I), ErrorModel>) -> bool {
        match input.spec_take_char() {
            Err(e) => out == Err::<(char, I), ErrorModel>(e),
            Ok(Some((c, rest))) => out == Ok::<(char, I), ErrorModel>((c, rest)),
            Ok(None) => out == Err::<(char, I), ErrorModel>(
                ErrorModel::UnexpectedEOF.with_span(
                    SourceSpan { start: spec_current_offset(ctx, input), end: spec_current_offset(ctx, input) },
                ),
            ),
        }
    }

    fn parse_with_context(input: I, context: &mut ParseOffsetContext) -> (r: ParseResult<(char, I)>) {
        match input.take_char()? {
            Some((c, rest)) => Ok((c, rest)),
            None => {
                let start = current_parse_offset(context, input);
                Err(ParseError::UnexpectedEOF.with_span(SourceSpan::point(start)))
            },
        }
    }
}


// ---------------------------------------------------------------------------
// Filtered integers
// ---------------------------------------------------------------------------

/// What an integer parser filtered by `keep` gives: the integer when `keep` holds of it,
/// else `expected {name}, found '{value}'`; the integer parser's error is passed on.
pub open spec fn filtered_rel<'a, I: ParseOffsetInput<'a>, T: Parse<'a, I>>(
    input: I,
    ctx: ContextModel,
    name: Seq<char>,
    keep: spec_fn(T) -> bool,
    text: spec_fn(T) -> Seq<char>,
    out: Result<(T, I), ErrorModel>,
) -> bool {
    match out {
        Err(e) => T::parse_rel(input, ctx, Err(e)) || exists|v: T, r: I|
            #[trigger] T::parse_rel(input, ctx, Ok((v, r))) && !keep(v) && e == ErrorModel::Custom(
                expected_found(name, text(v)),
            ),
        Ok(p) => T::parse_rel(input, ctx, Ok(p)) && keep(p.0),
    }
}

/// An integer parsed by `T` that is one of the positive values.
#[derive(Debug, Clone, Copy, PartialEq, Eq, Hash, Default, PartialOrd, Ord)]
pub struct Positive<T>(pub T);

impl<'a, I: ParseOffsetInput<'a>> Parse<'a, I> for Positive<i8> {
    /// The integer when it is one of the positive values; see [`filtered_rel`].
    open spec fn parse_rel(input: I, ctx: ContextModel, out: Result<(Positive<i8>, I), ErrorModel>) -> bool {
        filtered_rel::<I, i8>(
            input,
            ctx,
            "Positive"@,
            |v: i8| v > 0,
            |v: i8| int_chars(v as int),
            match out {
                Err(e) => Err(e),
                Ok(p) => Ok((p.0.0, p.1)),
            },
        )
    }

    fn parse_with_context(input: I, context: &mut ParseOffsetContext) -> (r: ParseResult<(Positive<i8>, I)>) {
        let ghost ctx = context@;
        let (v, rest) = <i8>::parse_with_context(input, context)?;
        assert(<i8>::parse_rel(input, ctx, Ok((v, rest))));
        if !(v > 0) {
            let text = int_string(v as i128);
            return Err(ParseError::custom_owned(expected_found_message("Positive", text.as_str())));
        }
        Ok((Positive(v), rest))
    }
}

impl<'a, I: ParseOffsetInput<'a>> Parse<'a, I> for Positive<i16> {
    /// The integer when it is one of the positive values; see [`filtered_rel`].
    open spec fn parse_rel(input: I, ctx: ContextModel, out: Result<(Positive<i16>, I), ErrorModel>) -> bool {
        filtered_rel::<I, i16>(
            input,
            ctx,
            "Positive"@,
            |v: i16| v > 0,
            |v: i16| int_chars(v as int),
            match out {
                Err(e) => Err(e),
                Ok(p) => Ok((p.0.0, p.1)),
            },
        )
    }

    fn parse_with_context(input: I, context: &mut ParseOffsetContext) -> (r: ParseResult<(Positive<i16>, I)>) {
        let ghost ctx = context@;
        let (v, rest) = <i16>::parse_with_context(input, context)?;
        assert(<i16>::parse_rel(input, ctx, Ok((v, rest))));
        if !(v > 0) {
            let text = int_string(v as i128);
            return Err(ParseError::custom_owned(expected_found_message("Positive", text.as_str())));
        }
        Ok((Positive(v), rest))
    }
}

impl<'a, I: ParseOffsetInput<'a>> Parse<'a, I> for Positive<i32> {
    /// The integer when it is one of the positive values; see [`filtered_rel`].
    open spec fn parse_rel(input: I, ctx: ContextModel, out: Result<(Positive<i32>, I), ErrorModel>) -> bool {
        filtered_rel::<I, i32>(
            input,
            ctx,
            "Positive"@,
            |v: i32| v > 0,
            |v: i32| int_chars(v as int),
            match out {
                Err(e) => Err(e),
                Ok(p) => Ok((p.0.0, p.1)),
            },
        )
    }

    fn parse_with_context(input: I, context: &mut ParseOffsetContext) -> (r: ParseResult<(Positive<i32>, I)>) {
        let ghost ctx = context@;
        let (v, rest) = <i32>::parse_with_context(input, context)?;
        assert(<i32>::parse_rel(input, ctx, Ok((v, rest))));
        if !(v > 0) {
            let text = int_string(v as i128);
            return Err(ParseError::custom_owned(expected_found_message("Positive", text.as_str())));
        }
        Ok((Positive(v), rest))
    }
}

impl<'a, I: ParseOffsetInput<'a>> Parse<'a, I> for Positive<i64> {
    /// The integer when it is one of the positive values; see [`filtered_rel`].
    open spec fn parse_rel(input: I, ctx: ContextModel, out: Result<(Positive<i64>, I), ErrorModel>) -> bool {
        filtered_rel::<I, i64>(
            input,
            ctx,
            "Positive"@,
            |v: i64| v > 0,
            |v: i64| int_chars(v as int),
            match out {
                Err(e) => Err(e),
                Ok(p) => Ok((p.0.0, p.1)),
            },
        )
    }

    fn parse_with_context(input: I, context: &mut ParseOffsetContext) -> (r: ParseResult<(Positive<i64>, I)>) {
        let ghost ctx = context@;
        let (v, rest) = <i64>::parse_with_context(input, context)?;
        assert(<i64>::parse_rel(input, ctx, Ok((v, rest))));
        if !(v > 0) {
            let text = int_string(v as i128);
            return Err(ParseError::custom_owned(expected_found_message("Positive", text.as_str())));
        }
        Ok((Positive(v), rest))
    }
}

impl<'a, I: ParseOffsetInput<'a>> Parse<'a, I> for Positive<i128> {
    /// The integer when it is one of the positive values; see [`filtered_rel`].
    open spec fn parse_rel(input: I, ctx: ContextModel, out: Result<(Positive<i128>, I), ErrorModel>) -> bool {
        filtered_rel::<I, i128>(
            input,
            ctx,
            "Positive"@,
            |v: i128| v > 0,
            |v: i128| int_chars(v as int),
            match out {
                Err(e) => Err(e),
                Ok(p) => Ok((p.0.0, p.1)),
            },
        )
    }

    fn parse_with_context(input: I, context: &mut ParseOffsetContext) -> (r: ParseResult<(Positive<i128>, I)>) {
        let ghost ctx = context@;
        let (v, rest) = <i128>::parse_with_context(input, context)?;
        assert(<i128>::parse_rel(input, ctx, Ok((v, rest))));
        if !(v > 0) {
            let text = int_string(v as i128);
            return Err(ParseError::custom_owned(expected_found_message("Positive", text.as_str())));
        }
        Ok((Positive(v), rest))
    }
}

impl<'a, I: ParseOffsetInput<'a>> Parse<'a, I> for Positive<isize> {
    /// The integer when it is one of the positive values; see [`filtered_rel`].
    open spec fn parse_rel(input: I, ctx: ContextModel, out: Result<(Positive<isize>, I), ErrorModel>) -> bool {
        filtered_rel::<I, isize>(
            input,
            ctx,
            "Positive"@,
            |v: isize| v > 0,
            |v: isize| int_chars(v as int),
            match out {
                Err(e) => Err(e),
                Ok(p) => Ok((p.0.0, p.1)),
            },
        )
    }

    fn parse_with_context(input: I, context: &mut ParseOffsetContext) -> (r: ParseResult<(Positive<isize>, I)>) {
        let ghost ctx = context@;
        let (v, rest) = <isize>::parse_with_context(input, context)?;
        assert(<isize>::parse_rel(input, ctx, Ok((v, rest))));
        if !(v > 0) {
            let text = int_string(v as i128);
            return Err(ParseError::custom_owned(expected_found_message("Positive", text.as_str())));
        }
        Ok((Positive(v), rest))
    }
}

/// An integer parsed by `T` that is one of the negative values.
#[derive(Debug, Clone, Copy, PartialEq, Eq, Hash, Default, PartialOrd, Ord)]
pub struct Negative<T>(pub T);

impl<'a, I: ParseOffsetInput<'a>> Parse<'a, I> for Negative<i8> {
    /// The integer when it is one of the negative values; see [`filtered_rel`].
    open spec fn parse_rel(input: I, ctx: ContextModel, out: Result<(Negative<i8>, I), ErrorModel>) -> bool {
        filtered_rel::<I, i8>(
            input,
            ctx,
            "Negative"@,
            |v: i8| v < 0,
            |v: i8| int_chars(v as int),
            match out {
                Err(e) => Err(e),
                Ok(p) => Ok((p.0.0, p.1)),
            },
        )
    }

    fn parse_with_context(input: I, context: &mut ParseOffsetContext) -> (r: ParseResult<(Negative<i8>, I)>) {
        let ghost ctx = context@;
        let (v, rest) = <i8>::parse_with_context(input, context)?;
        assert(<i8>::parse_rel(input, ctx, Ok((v, rest))));
        if !(v < 0) {
            let text = int_string(v as i128);
            return Err(ParseError::custom_owned(expected_found_message("Negative", text.as_str())));
        }
        Ok((Negative(v), rest))
    }
}

impl<'a, I: ParseOffsetInput<'a>> Parse<'a, I> for Negative<i16> {
    /// The integer when it is one of the negative values; see [`filtered_rel`].
    open spec fn parse_rel(input: I, ctx: ContextModel, out: Result<(Negative<i16>, I), ErrorModel>) -> bool {
        filtered_rel::<I, i16>(
            input,
            ctx,
            "Negative"@,
            |v: i16| v < 0,
            |v: i16| int_chars(v as int),
            match out {
                Err(e) => Err(e),
                Ok(p) => Ok((p.0.0, p.1)),
            },
        )
    }

    fn parse_with_context(input: I, context: &mut ParseOffsetContext) -> (r: ParseResult<(Negative<i16>, I)>) {
        let ghost ctx = context@;
        let (v, rest) = <i16>::parse_with_context(input, context)?;
        assert(<i16>::parse_rel(input, ctx, Ok((v, rest))));
        if !(v < 0) {
            let text = int_string(v as i128);
            return Err(ParseError::custom_owned(expected_found_message("Negative", text.as_str())));
        }
        Ok((Negative(v), rest))
    }
}

impl<'a, I: ParseOffsetInput<'a>> Parse<'a, I> for Negative<i32> {
    /// The integer when it is one of the negative values; see [`filtered_rel`].
    open spec fn parse_rel(input: I, ctx: ContextModel, out: Result<(Negative<i32>, I), ErrorModel>) -> bool {
        filtered_rel::<I, i32>(
            input,
            ctx,
            "Negative"@,
            |v: i32| v < 0,
            |v: i32| int_chars(v as int),
            match out {
                Err(e) => Err(e),
                Ok(p) => Ok((p.0.0, p.1)),
            },
        )
    }

    fn parse_with_context(input: I, context: &mut ParseOffsetContext) -> (r: ParseResult<(Negative<i32>, I)>) {
        let ghost ctx = context@;
        let (v, rest) = <i32>::parse_with_context(input, context)?;
        assert(<i32>::parse_rel(input, ctx, Ok((v, rest))));
        if !(v < 0) {
            let text = int_string(v as i128);
            return Err(ParseError::custom_owned(expected_found_message("Negative", text.as_str())));
        }
        Ok((Negative(v), rest))
    }
}

impl<'a, I: ParseOffsetInput<'a>> Parse<'a, I> for Negative<i64> {
    /// The integer when it is one of the negative values; see [`filtered_rel`].
    open spec fn parse_rel(input: I, ctx: ContextModel, out: Result<(Negative<i64>, I), ErrorModel>) -> bool {
        filtered_rel::<I, i64>(
            input,
            ctx,
            "Negative"@,
            |v: i64| v < 0,
            |v: i64| int_chars(v as int),
            match out {
                Err(e) => Err(e),
                Ok(p) => Ok((p.0.0, p.1)),
            },
        )
    }

    fn parse_with_context(input: I, context: &mut ParseOffsetContext) -> (r: ParseResult<(Negative<i64>, I)>) {
        let ghost ctx = context@;
        let (v, rest) = <i64>::parse_with_context(input, context)?;
        assert(<i64>::parse_rel(input, ctx, Ok((v, rest))));
        if !(v < 0) {
            let text = int_string(v as i128);
            return Err(ParseError::custom_owned(expected_found_message("Negative", text.as_str())));
        }
        Ok((Negative(v), rest))
    }
}

impl<'a, I: ParseOffsetInput<'a>> Parse<'a, I> for Negative<i128> {
    /// The integer when it is one of the negative values; see [`filtered_rel`].
    open spec fn parse_rel(input: I, ctx: ContextModel, out: Result<(Negative<i128>, I), ErrorModel>) -> bool {
        filtered_rel::<I, i128>(
            input,
            ctx,
            "Negative"@,
            |v: i128| v < 0,
            |v: i128| int_chars(v as int),
            match out {
                Err(e) => Err(e),
                Ok(p) => Ok((p.0.0, p.1)),
            },
        )
    }

    fn parse_with_context(input: I, context: &mut ParseOffsetContext) -> (r: ParseResult<(Negative<i128>, I)>) {
        let ghost ctx = context@;
        let (v, rest) = <i128>::parse_with_context(input, context)?;
        assert(<i128>::parse_rel(input, ctx, Ok((v, rest))));
        if !(v < 0) {
            let text = int_string(v as i128);
            return Err(ParseError::custom_owned(expected_found_message("Negative", text.as_str())));
        }
        Ok((Negative(v), rest))
    }
}

impl<'a, I: ParseOffsetInput<'a>> Parse<'a, I> for Negative<isize> {
    /// The integer when it is one of the negative values; see [`filtered_rel`].
    open spec fn parse_rel(input: I, ctx: ContextModel, out: Result<(Negative<isize>, I), ErrorModel>) -> bool {
        filtered_rel::<I, isize>(
            input,
            ctx,
            "Negative"@,
            |v: isize| v < 0,
            |v: isize| int_chars(v as int),
            match out {
                Err(e) => Err(e),
                Ok(p) => Ok((p.0.0, p.1)),
            },
        )
    }

    fn parse_with_context(input: I, context: &mut ParseOffsetContext) -> (r: ParseResult<(Negative<isize>, I)>) {
        let ghost ctx = context@;
        let (v, rest) = <isize>::parse_with_context(input, context)?;
        assert(<isize>::parse_rel(input, ctx, Ok((v, rest))));
        if !(v < 0) {
            let text = int_string(v as i128);
            return Err(ParseError::custom_owned(expected_found_message("Negative", text.as_str())));
        }
        Ok((Negative(v), rest))
    }
}

/// An integer parsed by `T` that is one of the values other than zero.
#[derive(Debug, Clone, Copy, PartialEq, Eq, Hash, Default, PartialOrd, Ord)]
pub struct NonZero<T>(pub T);

impl<'a, I: ParseOffsetInput<'a>> Parse<'a, I> for NonZero<i8> {
    /// The integer when it is one of the values other than zero; see [`filtered_rel`].
    open spec fn parse_rel(input: I, ctx: ContextModel, out: Result<(NonZero<i8>, I), ErrorModel>) -> bool {
        filtered_rel::<I, i8>(
            input,
            ctx,
            "NonZero"@,
            |v: i8| v != 0,
            |v: i8| int_chars(v as int),
            match out {
                Err(e) => Err(e),
                Ok(p) => Ok((p.0.0, p.1)),
            },
        )
    }

    fn parse_with_context(input: I, context: &mut ParseOffsetContext) -> (r: ParseResult<(NonZero<i8>, I)>) {
        let ghost ctx = context@;
        let (v, rest) = <i8>::parse_with_context(input, context)?;
        assert(<i8>::parse_rel(input, ctx, Ok((v, rest))));
        if !(v != 0) {
            let text = int_string(v as i128);
            return Err(ParseError::custom_owned(expected_found_message("NonZero", text.as_str())));
        }
        Ok((NonZero(v), rest))
    }
}

impl<'a, I: ParseOffsetInput<'a>> Parse<'a, I> for NonZero<i16> {
    /// The integer when it is one of the values other than zero; see [`filtered_rel`].
    open spec fn parse_rel(input: I, ctx: ContextModel, out: Result<(NonZero<i16>, I), ErrorModel>) -> bool {
        filtered_rel::<I, i16>(
            input,
            ctx,
            "NonZero"@,
            |v: i16| v != 0,
            |v: i16| int_chars(v as int),
            match out {
                Err(e) => Err(e),
                Ok(p) => Ok((p.0.0, p.1)),
            },
        )
    }

    fn parse_with_context(input: I, context: &mut ParseOffsetContext) -> (r: ParseResult<(NonZero<i16>, I)>) {
        let ghost ctx = context@;
        let (v, rest) = <i16>::parse_with_context(input, context)?;
        assert(<i16>::parse_rel(input, ctx, Ok((v, rest))));
        if !(v != 0) {
            let text = int_string(v as i128);
            return Err(ParseError::custom_owned(expected_found_message("NonZero", text.as_str())));
        }
        Ok((NonZero(v), rest))
    }
}

impl<'a, I: ParseOffsetInput<'a>> Parse<'a, I> for NonZero<i32> {
    /// The integer when it is one of the values other than zero; see [`filtered_rel`].
    open spec fn parse_rel(input: I, ctx: ContextModel, out: Result<(NonZero<i32>, I), ErrorModel>) -> bool {
        filtered_rel::<I, i32>(
            input,
            ctx,
            "NonZero"@,
            |v: i32| v != 0,
            |v: i32| int_chars(v as int),
            match out {
                Err(e) => Err(e),
                Ok(p) => Ok((p.0.0, p.1)),
            },
        )
    }

    fn parse_with_context(input: I, context: &mut ParseOffsetContext) -> (r: ParseResult<(NonZero<i32>, I)>) {
        let ghost ctx = context@;
        let (v, rest) = <i32>::parse_with_context(input, context)?;
        assert(<i32>::parse_rel(input, ctx, Ok((v, rest))));
        if !(v != 0) {
            let text = int_string(v as i128);
            return Err(ParseError::custom_owned(expected_found_message("NonZero", text.as_str())));
        }
        Ok((NonZero(v), rest))
    }
}

impl<'a, I: ParseOffsetInput<'a>> Parse<'a, I> for NonZero<i64> {
    /// The integer when it is one of the values other than zero; see [`filtered_rel`].
    open spec fn parse_rel(input: I, ctx: ContextModel, out: Result<(NonZero<i64>, I), ErrorModel>) -> bool {
        filtered_rel::<I, i64>(
            input,
            ctx,
            "NonZero"@,
            |v: i64| v != 0,
            |v: i64| int_chars(v as int),
            match out {
                Err(e) => Err(e),
                Ok(p) => Ok((p.0.0, p.1)),
            },
        )
    }

    fn parse_with_context(input: I, context: &mut ParseOffsetContext) -> (r: ParseResult<(NonZero<i64>, I)>) {
        let ghost ctx = context@;
        let (v, rest) = <i64>::parse_with_context(input, context)?;
        assert(<i64>::parse_rel(input, ctx, Ok((v, rest))));
        if !(v != 0) {
            let text = int_string(v as i128);
            return Err(ParseError::custom_owned(expected_found_message("NonZero", text.as_str())));
        }
        Ok((NonZero(v), rest))
    }
}

impl<'a, I: ParseOffsetInput<'a>> Parse<'a, I> for NonZero<i128> {
    /// The integer when it is one of the values other than zero; see [`filtered_rel`].
    open spec fn parse_rel(input: I, ctx: ContextModel, out: Result<(NonZero<i128>, I), ErrorModel>) -> bool {
        filtered_rel::<I, i128>(
            input,
            ctx,
            "NonZero"@,
            |v: i128| v != 0,
            |v: i128| int_chars(v as int),
            match out {
                Err(e) => Err(e),
                Ok(p) => Ok((p.0.0, p.1)),
            },
        )
    }

    fn parse_with_context(input: I, context: &mut ParseOffsetContext) -> (r: ParseResult<(NonZero<i128>, I)>) {
        let ghost ctx = context@;
        let (v, rest) = <i128>::parse_with_context(input, context)?;
        assert(<i128>::parse_rel(input, ctx, Ok((v, rest))));
        if !(v != 0) {
            let text = int_string(v as i128);
            return Err(ParseError::custom_owned(expected_found_message("NonZero", text.as_str())));
        }
        Ok((NonZero(v), rest))
    }
}

impl<'a, I: ParseOffsetInput<'a>> Parse<'a, I> for NonZero<isize> {
    /// The integer when it is one of the values other than zero; see [`filtered_rel`].
    open spec fn parse_rel(input: I, ctx: ContextModel, out: Result<(NonZero<isize>, I), ErrorModel>) -> bool {
        filtered_rel::<I, isize>(
            input,
            ctx,
            "NonZero"@,
            |v: isize| v != 0,
            |v: isize| int_chars(v as int),
            match out {
                Err(e) => Err(e),
                Ok(p) => Ok((p.0.0, p.1)),
            },
        )
    }

    fn parse_with_context(input: I, context: &mut ParseOffsetContext) -> (r: ParseResult<(NonZero<isize>, I)>) {
        let ghost ctx = context@;
        let (v, rest) = <isize>::parse_with_context(input, context)?;
        assert(<isize>::parse_rel(input, ctx, Ok((v, rest))));
        if !(v != 0) {
            let text = int_string(v as i128);
            return Err(ParseError::custom_owned(expected_found_message("NonZero", text.as_str())));
        }
        Ok((NonZero(v), rest))
    }
}

impl<'a, I: ParseOffsetInput<'a>> Parse<'a, I> for NonZero<u8> {
    /// The integer when it is one of the values other than zero; see [`filtered_rel`].
    open spec fn parse_rel(input: I, ctx: ContextModel, out: Result<(NonZero<u8>, I), ErrorModel>) -> bool {
        filtered_rel::<I, u8>(
            input,
            ctx,
            "NonZero"@,
            |v: u8| v != 0,
            |v: u8| crate::text::decimal_chars(v as nat),
            match out {
                Err(e) => Err(e),
                Ok(p) => Ok((p.0.0, p.1)),
            },
        )
    }

    fn parse_with_context(input: I, context: &mut ParseOffsetContext) -> (r: ParseResult<(NonZero<u8>, I)>) {
        let ghost ctx = context@;
        let (v, rest) = <u8>::parse_with_context(input, context)?;
        assert(<u8>::parse_rel(input, ctx, Ok((v, rest))));
        if !(v != 0) {
            let text = crate::text::decimal_string_u128(v as u128);
            return Err(ParseError::custom_owned(expected_found_message("NonZero", text.as_str())));
        }
        Ok((NonZero(v), rest))
    }
}

impl<'a, I: ParseOffsetInput<'a>> Parse<'a, I> for NonZero<u16> {
    /// The integer when it is one of the values other than zero; see [`filtered_rel`].
    open spec fn parse_rel(input: I, ctx: ContextModel, out: Result<(NonZero<u16>, I), ErrorModel>) -> bool {
        filtered_rel::<I, u16>(
            input,
            ctx,
            "NonZero"@,
            |v: u16| v != 0,
            |v: u16| crate::text::decimal_chars(v as nat),
            match out {
                Err(e) => Err(e),
                Ok(p) => Ok((p.0.0, p.1)),
            },
        )
    }

    fn parse_with_context(input: I, context: &mut ParseOffsetContext) -> (r: ParseResult<(NonZero<u16>, I)>) {
        let ghost ctx = context@;
        let (v, rest) = <u16>::parse_with_context(input, context)?;
        assert(<u16>::parse_rel(input, ctx, Ok((v, rest))));
        if !(v != 0) {
            let text = crate::text::decimal_string_u128(v as u128);
            return Err(ParseError::custom_owned(expected_found_message("NonZero", text.as_str())));
        }
        Ok((NonZero(v), rest))
    }
}

impl<'a, I: ParseOffsetInput<'a>> Parse<'a, I> for NonZero<u32> {
    /// The integer when it is one of the values other than zero; see [`filtered_rel`].
    open spec fn parse_rel(input: I, ctx: ContextModel, out: Result<(NonZero<u32>, I), ErrorModel>) -> bool {
        filtered_rel::<I, u32>(
            input,
            ctx,
            "NonZero"@,
            |v: u32| v != 0,
            |v: u32| crate::text::decimal_chars(v as nat),
            match out {
                Err(e) => Err(e),
                Ok(p) => Ok((p.0.0, p.1)),
            },
        )
    }

    fn parse_with_context(input: I, context: &mut ParseOffsetContext) -> (r: ParseResult<(NonZero<u32>, I)>) {
        let ghost ctx = context@;
        let (v, rest) = <u32>::parse_with_context(input, context)?;
        assert(<u32>::parse_rel(input, ctx, Ok((v, rest))));
        if !(v != 0) {
            let text = crate::text::decimal_string_u128(v as u128);
            return Err(ParseError::custom_owned(expected_found_message("NonZero", text.as_str())));
        }
        Ok((NonZero(v), rest))
    }
}

impl<'a, I: ParseOffsetInput<'a>> Parse<'a, I> for NonZero<u64> {
    /// The integer when it is one of the values other than zero; see [`filtered_rel`].
    open spec fn parse_rel(input: I, ctx: ContextModel, out: Result<(NonZero<u64>, I), ErrorModel>) -> bool {
        filtered_rel::<I, u64>(
            input,
            ctx,
            "NonZero"@,
            |v: u64| v != 0,
            |v: u64| crate::text::decimal_chars(v as nat),
            match out {
                Err(e) => Err(e),
                Ok(p) => Ok((p.0.0, p.1)),
            },
        )
    }

    fn parse_with_context(input: I, context: &mut ParseOffsetContext) -> (r: ParseResult<(NonZero<u64>, I)>) {
        let ghost ctx = context@;
        let (v, rest) = <u64>::parse_with_context(input, context)?;
        assert(<u64>::parse_rel(input, ctx, Ok((v, rest))));
        if !(v != 0) {
            let text = crate::text::decimal_string_u128(v as u128);
            return Err(ParseError::custom_owned(expected_found_message("NonZero", text.as_str())));
        }
        Ok((NonZero(v), rest))
    }
}

impl<'a, I: ParseOffsetInput<'a>> Parse<'a, I> for NonZero<u128> {
    /// The integer when it is one of the values other than zero; see [`filtered_rel`].
    open spec fn parse_rel(input: I, ctx: ContextModel, out: Result<(NonZero<u128>, I), ErrorModel>) -> bool {
        filtered_rel::<I, u128>(
            input,
            ctx,
            "NonZero"@,
            |v: u128| v != 0,
            |v: u128| crate::text::decimal_chars(v as nat),
            match out {
                Err(e) => Err(e),
                Ok(p) => Ok((p.0.0, p.1)),
            },
        )
    }

    fn parse_with_context(input: I, context: &mut ParseOffsetContext) -> (r: ParseResult<(NonZero<u128>, I)>) {
        let ghost ctx = context@;
        let (v, rest) = <u128>::parse_with_context(input, context)?;
        assert(<u128>::parse_rel(input, ctx, Ok((v, rest))));
        if !(v != 0) {
            let text = crate::text::decimal_string_u128(v as u128);
            return Err(ParseError::custom_owned(expected_found_message("NonZero", text.as_str())));
        }
        Ok((NonZero(v), rest))
    }
}

impl<'a, I: ParseOffsetInput<'a>> Parse<'a, I> for NonZero<usize> {
    /// The integer when it is one of the values other than zero; see [`filtered_rel`].
    open spec fn parse_rel(input: I, ctx: ContextModel, out: Result<(NonZero<usize>, I), ErrorModel>) -> bool {
        filtered_rel::<I, usize>(
            input,
            ctx,
            "NonZero"@,
            |v: usize| v != 0,
            |v: usize| crate::text::decimal_chars(v as nat),
            match out {
                Err(e) => Err(e),
                Ok(p) => Ok((p.0.0, p.1)),
            },
        )
    }

    fn parse_with_context(input: I, context: &mut ParseOffsetContext) -> (r: ParseResult<(NonZero<usize>, I)>) {
        let ghost ctx = context@;
        let (v, rest) = <usize>::parse_with_context(input, context)?;
        assert(<usize>::parse_rel(input, ctx, Ok((v, rest))));
        if !(v != 0) {
            let text = crate::text::decimal_string_u128(v as u128);
            return Err(ParseError::custom_owned(expected_found_message("NonZero", text.as_str())));
        }
        Ok((NonZero(v), rest))
    }
}

/// An integer parsed by `T` that is one of the values that are not negative.
#[derive(Debug, Clone, Copy, PartialEq, Eq, Hash, Default, PartialOrd, Ord)]
pub struct NonNegative<T>(pub T);

impl<'a, I: ParseOffsetInput<'a>> Parse<'a, I> for NonNegative<i8> {
    /// The integer when it is one of the values that are not negative; see [`filtered_rel`].
    open spec fn parse_rel(input: I, ctx: ContextModel, out: Result<(NonNegative<i8>, I), ErrorModel>) -> bool {
        filtered_rel::<I, i8>(
            input,
            ctx,
            "NonNegative"@,
            |v: i8| v >= 0,
            |v: i8| int_chars(v as int),
            match out {
                Err(e) => Err(e),
                Ok(p) => Ok((p.0.0, p.1)),
            },
        )
    }

    fn parse_with_context(input: I, context: &mut ParseOffsetContext) -> (r: ParseResult<(NonNegative<i8>, I)>) {
        let ghost ctx = context@;
        let (v, rest) = <i8>::parse_with_context(input, context)?;
        assert(<i8>::parse_rel(input, ctx, Ok((v, rest))));
        if !(v >= 0) {
            let text = int_string(v as i128);
            return Err(ParseError::custom_owned(expected_found_message("NonNegative", text.as_str())));
        }
        Ok((NonNegative(v), rest))
    }
}

impl<'a, I: ParseOffsetInput<'a>> Parse<'a, I> for NonNegative<i16> {
    /// The integer when it is one of the values that are not negative; see [`filtered_rel`].
    open spec fn parse_rel(input: I, ctx: ContextModel, out: Result<(NonNegative<i16>, I), ErrorModel>) -> bool {
        filtered_rel::<I, i16>(
            input,
            ctx,
            "NonNegative"@,
            |v: i16| v >= 0,
            |v: i16| int_chars(v as int),
            match out {
                Err(e) => Err(e),
                Ok(p) => Ok((p.0.0, p.1)),
            },
        )
    }

    fn parse_with_context(input: I, context: &mut ParseOffsetContext) -> (r: ParseResult<(NonNegative<i16>, I)>) {
        let ghost ctx = context@;
        let (v, rest) = <i16>::parse_with_context(input, context)?;
        assert(<i16>::parse_rel(input, ctx, Ok((v, rest))));
        if !(v >= 0) {
            let text = int_string(v as i128);
            return Err(ParseError::custom_owned(expected_found_message("NonNegative", text.as_str())));
        }
        Ok((NonNegative(v), rest))
    }
}

impl<'a, I: ParseOffsetInput<'a>> Parse<'a, I> for NonNegative<i32> {
    /// The integer when it is one of the values that are not negative; see [`filtered_rel`].
    open spec fn parse_rel(input: I, ctx: ContextModel, out: Result<(NonNegative<i32>, I), ErrorModel>) -> bool {
        filtered_rel::<I, i32>(
            input,
            ctx,
            "NonNegative"@,
            |v: i32| v >= 0,
            |v: i32| int_chars(v as int),
            match out {
                Err(e) => Err(e),
                Ok(p) => Ok((p.0.0, p.1)),
            },
        )
    }

    fn parse_with_context(input: I, context: &mut ParseOffsetContext) -> (r: ParseResult<(NonNegative<i32>, I)>) {
        let ghost ctx = context@;
        let (v, rest) = <i32>::parse_with_context(input, context)?;
        assert(<i32>::parse_rel(input, ctx, Ok((v, rest))));
        if !(v >= 0) {
            let text = int_string(v as i128);
            return Err(ParseError::custom_owned(expected_found_message("NonNegative", text.as_str())));
        }
        Ok((NonNegative(v), rest))
    }
}

impl<'a, I: ParseOffsetInput<'a>> Parse<'a, I> for NonNegative<i64> {
    /// The integer when it is one of the values that are not negative; see [`filtered_rel`].
    open spec fn parse_rel(input: I, ctx: ContextModel, out: Result<(NonNegative<i64>, I), ErrorModel>) -> bool {
        filtered_rel::<I, i64>(
            input,
            ctx,
            "NonNegative"@,
            |v: i64| v >= 0,
            |v: i64| int_chars(v as int),
            match out {
                Err(e) => Err(e),
                Ok(p) => Ok((p.0.0, p.1)),
            },
        )
    }

    fn parse_with_context(input: I, context: &mut ParseOffsetContext) -> (r: ParseResult<(NonNegative<i64>, I)>) {
        let ghost ctx = context@;
        let (v, rest) = <i64>::parse_with_context(input, context)?;
        assert(<i64>::parse_rel(input, ctx, Ok((v, rest))));
        if !(v >= 0) {
            let text = int_string(v as i128);
            return Err(ParseError::custom_owned(expected_found_message("NonNegative", text.as_str())));
        }
        Ok((NonNegative(v), rest))
    }
}

impl<'a, I: ParseOffsetInput<'a>> Parse<'a, I> for NonNegative<i128> {
    /// The integer when it is one of the values that are not negative; see [`filtered_rel`].
    open spec fn parse_rel(input: I, ctx: ContextModel, out: Result<(NonNegative<i128>, I), ErrorModel>) -> bool {
        filtered_rel::<I, i128>(
            input,
            ctx,
            "NonNegative"@,
            |v: i128| v >= 0,
            |v: i128| int_chars(v as int),
            match out {
                Err(e) => Err(e),
                Ok(p) => Ok((p.0.0, p.1)),
            },
        )
    }

    fn parse_with_context(input: I, context: &mut ParseOffsetContext) -> (r: ParseResult<(NonNegative<i128>, I)>) {
        let ghost ctx = context@;
        let (v, rest) = <i128>::parse_with_context(input, context)?;
        assert(<i128>::parse_rel(input, ctx, Ok((v, rest))));
        if !(v >= 0) {
            let text = int_string(v as i128);
            return Err(ParseError::custom_owned(expected_found_message("NonNegative", text.as_str())));
        }
        Ok((NonNegative(v), rest))
    }
}

impl<'a, I: ParseOffsetInput<'a>> Parse<'a, I> for NonNegative<isize> {
    /// The integer when it is one of the values that are not negative; see [`filtered_rel`].
    open spec fn parse_rel(input: I, ctx: ContextModel, out: Result<(NonNegative<isize>, I), ErrorModel>) -> bool {
        filtered_rel::<I, isize>(
            input,
            ctx,
            "NonNegative"@,
            |v: isize| v >= 0,
            |v: isize| int_chars(v as int),
            match out {
                Err(e) => Err(e),
                Ok(p) => Ok((p.0.0, p.1)),
            },
        )
    }

    fn parse_with_context(input: I, context: &mut ParseOffsetContext) -> (r: ParseResult<(NonNegative<isize>, I)>) {
        let ghost ctx = context@;
        let (v, rest) = <isize>::parse_with_context(input, context)?;
        assert(<isize>::parse_rel(input, ctx, Ok((v, rest))));
        if !(v >= 0) {
            let text = int_string(v as i128);
            return Err(ParseError::custom_owned(expected_found_message("NonNegative", text.as_str())));
        }
        Ok((NonNegative(v), rest))
    }
}

/// An integer parsed by `T` that is one of the values that are not positive.
#[derive(Debug, Clone, Copy, PartialEq, Eq, Hash, Default, PartialOrd, Ord)]
pub struct NonPositive<T>(pub T);

impl<'a, I: ParseOffsetInput<'a>> Parse<'a, I> for NonPositive<i8> {
    /// The integer when it is one of the values that are not positive; see [`filtered_rel`].
    open spec fn parse_rel(input: I, ctx: ContextModel, out: Result<(NonPositive<i8>, I), ErrorModel>) -> bool {
        filtered_rel::<I, i8>(
            input,
            ctx,
            "NonPositive"@,
            |v: i8| v <= 0,
            |v: i8| int_chars(v as int),
            match out {
                Err(e) => Err(e),
                Ok(p) => Ok((p.0.0, p.1)),
            },
        )
    }

    fn parse_with_context(input: I, context: &mut ParseOffsetContext) -> (r: ParseResult<(NonPositive<i8>, I)>) {
        let ghost ctx = context@;
        let (v, rest) = <i8>::parse_with_context(input, context)?;
        assert(<i8>::parse_rel(input, ctx, Ok((v, rest))));
        if !(v <= 0) {
            let text = int_string(v as i128);
            return Err(ParseError::custom_owned(expected_found_message("NonPositive", text.as_str())));
        }
        Ok((NonPositive(v), rest))
    }
}

impl<'a, I: ParseOffsetInput<'a>> Parse<'a, I> for NonPositive<i16> {
    /// The integer when it is one of the values that are not positive; see [`filtered_rel`].
    open spec fn parse_rel(input: I, ctx: ContextModel, out: Result<(NonPositive<i16>, I), ErrorModel>) -> bool {
        filtered_rel::<I, i16>(
            input,
            ctx,
            "NonPositive"@,
            |v: i16| v <= 0,
            |v: i16| int_chars(v as int),
            match out {
                Err(e) => Err(e),
                Ok(p) => Ok((p.0.0, p.1)),
            },
        )
    }

    fn parse_with_context(input: I, context: &mut ParseOffsetContext) -> (r: ParseResult<(NonPositive<i16>, I)>) {
        let ghost ctx = context@;
        let (v, rest) = <i16>::parse_with_context(input, context)?;
        assert(<i16>::parse_rel(input, ctx, Ok((v, rest))));
        if !(v <= 0) {
            let text = int_string(v as i128);
            return Err(ParseError::custom_owned(expected_found_message("NonPositive", text.as_str())));
        }
        Ok((NonPositive(v), rest))
    }
}

impl<'a, I: ParseOffsetInput<'a>> Parse<'a, I> for NonPositive<i32> {
    /// The integer when it is one of the values that are not positive; see [`filtered_rel`].
    open spec fn parse_rel(input: I, ctx: ContextModel, out: Result<(NonPositive<i32>, I), ErrorModel>) -> bool {
        filtered_rel::<I, i32>(
            input,
            ctx,
            "NonPositive"@,
            |v: i32| v <= 0,
            |v: i32| int_chars(v as int),
            match out {
                Err(e) => Err(e),
                Ok(p) => Ok((p.0.0, p.1)),
            },
        )
    }

    fn parse_with_context(input: I, context: &mut ParseOffsetContext) -> (r: ParseResult<(NonPositive<i32>, I)>) {
        let ghost ctx = context@;
        let (v, rest) = <i32>::parse_with_context(input, context)?;
        assert(<i32>::parse_rel(input, ctx, Ok((v, rest))));
        if !(v <= 0) {
            let text = int_string(v as i128);
            return Err(ParseError::custom_owned(expected_found_message("NonPositive", text.as_str())));
        }
        Ok((NonPositive(v), rest))
    }
}

impl<'a, I: ParseOffsetInput<'a>> Parse<'a, I> for NonPositive<i64> {
    /// The integer when it is one of the values that are not positive; see [`filtered_rel`].
    open spec fn parse_rel(input: I, ctx: ContextModel, out: Result<(NonPositive<i64>, I), ErrorModel>) -> bool {
        filtered_rel::<I, i64>(
            input,
            ctx,
            "NonPositive"@,
            |v: i64| v <= 0,
            |v: i64| int_chars(v as int),
            match out {
                Err(e) => Err(e),
                Ok(p) => Ok((p.0.0, p.1)),
            },
        )
    }

    fn parse_with_context(input: I, context: &mut ParseOffsetContext) -> (r: ParseResult<(NonPositive<i64>, I)>) {
        let ghost ctx = context@;
        let (v, rest) = <i64>::parse_with_context(input, context)?;
        assert(<i64>::parse_rel(input, ctx, Ok((v, rest))));
        if !(v <= 0) {
            let text = int_string(v as i128);
            return Err(ParseError::custom_owned(expected_found_message("NonPositive", text.as_str())));
        }
        Ok((NonPositive(v), rest))
    }
}

impl<'a, I: ParseOffsetInput<'a>> Parse<'a, I> for NonPositive<i128> {
    /// The integer when it is one of the values that are not positive; see [`filtered_rel`].
    open spec fn parse_rel(input: I, ctx: ContextModel, out: Result<(NonPositive<i128>, I), ErrorModel>) -> bool {
        filtered_rel::<I, i128>(
            input,
            ctx,
            "NonPositive"@,
            |v: i128| v <= 0,
            |v: i128| int_chars(v as int),
            match out {
                Err(e) => Err(e),
                Ok(p) => Ok((p.0.0, p.1)),
            },
        )
    }

    fn parse_with_context(input: I, context: &mut ParseOffsetContext) -> (r: ParseResult<(NonPositive<i128>, I)>) {
        let ghost ctx = context@;
        let (v, rest) = <i128>::parse_with_context(input, context)?;
        assert(<i128>::parse_rel(input, ctx, Ok((v, rest))));
        if !(v <= 0) {
            let text = int_string(v as i128);
            return Err(ParseError::custom_owned(expected_found_message("NonPositive", text.as_str())));
        }
        Ok((NonPositive(v), rest))
    }
}

impl<'a, I: ParseOffsetInput<'a>> Parse<'a, I> for NonPositive<isize> {
    /// The integer when it is one of the values that are not positive; see [`filtered_rel`].
    open spec fn parse_rel(input: I, ctx: ContextModel, out: Result<(NonPositive<isize>, I), ErrorModel>) -> bool {
        filtered_rel::<I, isize>(
            input,
            ctx,
            "NonPositive"@,
            |v: isize| v <= 0,
            |v: isize| int_chars(v as int),
            match out {
                Err(e) => Err(e),
                Ok(p) => Ok((p.0.0, p.1)),
            },
        )
    }

    fn parse_with_context(input: I, context: &mut ParseOffsetContext) -> (r: ParseResult<(NonPositive<isize>, I)>) {
        let ghost ctx = context@;
        let (v, rest) = <isize>::parse_with_context(input, context)?;
        assert(<isize>::parse_rel(input, ctx, Ok((v, rest))));
        if !(v <= 0) {
            let text = int_string(v as i128);
            return Err(ParseError::custom_owned(expected_found_message("NonPositive", text.as_str())));
        }
        Ok((NonPositive(v), rest))
    }
}

} // verus!
