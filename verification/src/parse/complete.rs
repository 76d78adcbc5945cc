//! Entry points that parse a whole input.
use vstd::prelude::*;

use super::offset::{
    current_parse_offset, spec_current_offset, ContextModel, ParseOffsetContext,
    ParseOffsetInput,
};
use super::traits::Parse;
use crate::combinators::span::Span;
use crate::error::{ErrorModel, ParseError, ParseResult, SourceSpan};
use crate::input::{Input, StrInput};

verus! {

/// The context in which a whole input is parsed: one root, anchored at the input.
pub open spec fn root_ctx<'a, I: ParseOffsetInput<'a>>(input: I) -> ContextModel {
    ContextModel::rooted(input.spec_anchor())
}

/// The error for input `rem` left over after a complete parse.
pub open spec fn trailing_error<'a, I: ParseOffsetInput<'a>>(rem: I, ctx: ContextModel) -> ErrorModel {
    ErrorModel::Custom("unexpected trailing input: '"@ + rem.spec_display() + "'"@).with_span(
        SourceSpan::spec_from_start_len(spec_current_offset(ctx, rem), rem.spec_len() as usize),
    )
}

/// Whether `T` gives `v` from `input` with nothing but whitespace after it.
pub open spec fn complete_ok<'a, I: ParseOffsetInput<'a>, T: Parse<'a, I>>(input: I, v: T) -> bool {
    exists|rest: I|
        #[trigger] T::parse_rel(input, root_ctx(input), Ok((v, rest))) && rest.spec_trim_start().spec_is_empty()
}

/// Whether `T` succeeds on `input` but leaves input other than whitespace, reported as `e`.
pub open spec fn complete_trailing<'a, I: ParseOffsetInput<'a>, T: Parse<'a, I>>(
    input: I,
    e: ErrorModel,
) -> bool {
    exists|v: T, rest: I|
        #[trigger] T::parse_rel(input, root_ctx(input), Ok((v, rest))) && !rest.spec_trim_start().spec_is_empty()
            && e == trailing_error(rest.spec_trim_start(), root_ctx(input))
}

/// What parsing all of `input` as `T` gives: the value when only whitespace follows it, the
/// parse error, or the trailing-input error.
pub open spec fn complete_rel<'a, I: ParseOffsetInput<'a>, T: Parse<'a, I>>(
    input: I,
    out: Result<T, ErrorModel>,
) -> bool {
    match out {
        Err(e) => T::parse_rel(input, root_ctx(input), Err(e)) || complete_trailing::<I, T>(input, e),
        Ok(v) => complete_ok::<I, T>(input, v),
    }
}

/// The model of a complete parse's result.
pub open spec fn value_model<T>(r: ParseResult<T>) -> Result<T, ErrorModel> {
    match r {
        Err(e) => Err(e@),
        Ok(v) => Ok(v),
    }
}

/// Parses and fully consumes an abstract input: after the value only whitespace may remain.
pub fn parse_complete_input<'a, I: ParseOffsetInput<'a>, T: Parse<'a, I>>(input: I) -> (r:
    ParseResult<T>)
    ensures
        complete_rel::<I, T>(input, value_model(r)),
{
    let mut context = ParseOffsetContext::new();
    context.push_root(input);
    assert(context@ == root_ctx(input));
    let (result, remaining) = match T::parse_with_context(input, &mut context) {
        Ok(v) => v,
        Err(e) => {
            return Err(e);
        },
    };
    assert(T::parse_rel(input, root_ctx(input), Ok((result, remaining))));
    let remaining = remaining.trim_start();
    if remaining.is_empty() {
        assert(complete_ok::<I, T>(input, result));
        Ok(result)
    } else {
        let start = current_parse_offset(&context, remaining);
        let span = SourceSpan::from_start_len(start, remaining.input_len());
        let mut message = String::new();
        message.append("unexpected trailing input: '");
        let shown = remaining.display();
        message.append(shown.as_str());
        message.append("'");
        proof {
            reveal_strlit("unexpected trailing input: '");
            reveal_strlit("'");
            assert(message@ =~= "unexpected trailing input: '"@ + remaining.spec_display() + "'"@);
        }
        let err = ParseError::custom_owned(message).with_span(span);
        assert(complete_trailing::<I, T>(input, err@));
        Err(err)
    }
}

/// Parses and fully consumes an abstract input into a spanned result.
pub fn parse_complete_input_spanned<'a, I: ParseOffsetInput<'a>, T: Parse<'a, I>>(input: I) -> (r:
    ParseResult<Span<T>>)
    ensures
        complete_rel::<I, Span<T>>(input, value_model(r)),
{
    parse_complete_input::<I, Span<T>>(input)
}

/// Parses all of `text`: after the value only whitespace may remain.
pub fn parse_complete<'a, T: Parse<'a, StrInput<'a>>>(text: &'a str) -> (r: ParseResult<T>)
    ensures
        exists|input: StrInput<'a>|
            input.text() == text@ && input.offset() == 0 && #[trigger] complete_rel::<StrInput<'a>, T>(
                input,
                value_model(r),
            ),
{
    let input = StrInput::new(text);
    let r = parse_complete_input::<StrInput<'a>, T>(input);
    assert(complete_rel::<StrInput<'a>, T>(input, value_model(r)));
    r
}

/// Parses all of `text` into a spanned result.
pub fn parse_complete_spanned<'a, T: Parse<'a, StrInput<'a>>>(text: &'a str) -> (r: ParseResult<
    Span<T>,
>)
    ensures
        exists|input: StrInput<'a>|
            input.text() == text@ && input.offset() == 0 && #[trigger] complete_rel::<StrInput<'a>, Span<T>>(
                input,
                value_model(r),
            ),
{
    parse_complete::<Span<T>>(text)
}

} // verus!
