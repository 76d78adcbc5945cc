//! Literal tokens: types that stand for a fixed piece of text.
use vstd::prelude::*;

use crate::error::{spec_preview, ErrorModel, ParseError, ParseResult, SourceSpan, DEFAULT_INPUT_PREVIEW};
use crate::input::Input;
use crate::parse::offset::{current_parse_offset, spec_current_offset, ContextModel, ParseOffsetContext, ParseOffsetInput};
use crate::parse::Parse;

verus! {

/// A type that stands for a fixed piece of text, parsed by matching that text exactly.
pub trait Token: Sized {
    /// The token's text; implementations state it.
    open spec fn spec_value() -> Seq<char> {
        Seq::empty()
    }

    /// The token's value; implementations state it.
    open spec fn spec_token() -> Self {
        arbitrary()
    }

    /// The token's text.
    fn value() -> (r: &'static str)
        ensures
            r@ == Self::spec_value(),
    ;

    /// The token's value.
    fn token() -> (r: Self)
        ensures
            r == Self::spec_token(),
    ;
}

/// The error for `expected` not found at the start of `input`.
pub open spec fn unexpected_token_at<'a, I: ParseOffsetInput<'a>>(
    expected: Seq<char>,
    input: I,
    ctx: ContextModel,
) -> ErrorModel {
    ErrorModel::UnexpectedToken {
        expected,
        found: spec_preview(input.spec_display(), DEFAULT_INPUT_PREVIEW as nat),
    }.with_span(SourceSpan { start: spec_current_offset(ctx, input), end: spec_current_offset(ctx, input) })
}

/// What parsing the text `value` from `input` gives: the input after it when the input
/// starts with it, else an unexpected-token error at the current offset.
pub open spec fn literal_rel<'a, I: ParseOffsetInput<'a>>(
    value: Seq<char>,
    input: I,
    ctx: ContextModel,
) -> Result<I, ErrorModel> {
    match input.spec_strip_prefix(value) {
        Err(e) => Err(e),
        Ok(Some(rest)) => Ok(rest),
        Ok(None) => Err(unexpected_token_at(value, input, ctx)),
    }
}

/// Matches the text `value` at the start of `input`.
pub fn parse_literal<'a, I: ParseOffsetInput<'a>>(
    value: &'static str,
    input: I,
    context: &ParseOffsetContext,
) -> (r: ParseResult<I>)
    ensures
        match r {
            Ok(rest) => literal_rel(value@, input, context@) == Ok::<I, ErrorModel>(rest),
            Err(e) => literal_rel(value@, input, context@) == Err::<I, ErrorModel>(e@),
        },
{
    match input.strip_prefix(value) {
        Err(e) => Err(e),
        Ok(Some(rest)) => Ok(rest),
        Ok(None) => {
            let start = current_parse_offset(context, input);
            let found = input.display();
            Err(ParseError::unexpected_token(value, found.as_str()).with_span(SourceSpan::point(start)))
        },
    }
}

impl<'a, I: ParseOffsetInput<'a>, T: Token> Parse<'a, I> for T {
    /// The token when the input starts with its text; see [`literal_rel`].
    open spec fn parse_rel(input: I, ctx: ContextModel, out: Result<(T, I), ErrorModel>) -> bool {
        match literal_rel(T::spec_value(), input, ctx) {
            Ok(rest) => out == Ok::<(T, I), ErrorModel>((T::spec_token(), rest)),
            Err(e) => out == Err::<(T, I), ErrorModel>(e),
        }
    }

    fn parse_with_context(input: I, context: &mut ParseOffsetContext) -> (r: ParseResult<(T, I)>) {
        let rest = parse_literal(T::value(), input, context)?;
        Ok((T::token(), rest))
    }
}

} // verus!
