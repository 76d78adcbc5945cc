//! `Not`: parses `S` unless `P` matches at the same place.
use std::marker::PhantomData;
use vstd::prelude::*;

use crate::error::{preview_input, spec_preview, ErrorModel, ParseError, ParseResult, DEFAULT_INPUT_PREVIEW};
use crate::input::Input;
use crate::parse::offset::{ContextModel, ParseOffsetContext, ParseOffsetInput};
use crate::parse::Parse;

verus! {

/// `S`, where `P` does not match.
#[derive(Debug, PartialEq, Eq, Hash)]
pub struct Not<S, P> {
    pub value: S,
    pub _marker: PhantomData<P>,
}

/// The message of `Not` when the forbidden pattern matched at `found`.
pub open spec fn forbidden_message(found: Seq<char>) -> Seq<char> {
    "expected a value but matched the forbidden pattern at '"@ + spec_preview(
        found,
        DEFAULT_INPUT_PREVIEW as nat,
    ) + "'"@
}

/// Whether `P` succeeds on `input`.
pub open spec fn accepts<'a, I: ParseOffsetInput<'a>, P: Parse<'a, I>>(input: I, ctx: ContextModel) -> bool {
    exists|v: P, r: I| #[trigger] P::parse_rel(input, ctx, Ok((v, r)))
}

impl<'a, I: ParseOffsetInput<'a>, S: Parse<'a, I>, P: Parse<'a, I>> Parse<'a, I> for Not<S, P> {
    /// When `P` succeeds, an error showing the input; otherwise what `S` gives.
    open spec fn parse_rel(input: I, ctx: ContextModel, out: Result<(Not<S, P>, I), ErrorModel>) -> bool {
        match out {
            Err(e) => (accepts::<I, P>(input, ctx) && e == ErrorModel::Custom(
                forbidden_message(input.spec_display()),
            )) || (
            crate::parse::traits::fails::<I, P>(input, ctx) && S::parse_rel(input, ctx, Err(e))),
            Ok(p) => crate::parse::traits::fails::<I, P>(input, ctx) && S::parse_rel(
                input,
                ctx,
                Ok((p.0.value, p.1)),
            ),
        }
    }

    fn parse_with_context(input: I, context: &mut ParseOffsetContext) -> (r: ParseResult<
        (Not<S, P>, I),
    >) {
        let ghost ctx = context@;
        match P::parse_with_context(input, context) {
            Ok((pv, pr)) => {
                assert(P::parse_rel(input, ctx, Ok((pv, pr))));
                let shown = input.display();
                let preview = preview_input(shown.as_str(), DEFAULT_INPUT_PREVIEW);
                let mut m = String::new();
                m.append("expected a value but matched the forbidden pattern at '");
                m.append(preview.as_str());
                m.append("'");
                proof {
                    reveal_strlit("expected a value but matched the forbidden pattern at '");
                    reveal_strlit("'");
                    assert(m@ =~= forbidden_message(input.spec_display()));
                }
                return Err(ParseError::custom_owned(m));
            },
            Err(e) => {
                assert(P::parse_rel(input, ctx, Err(e@)));
            },
        }
        let (value, rest) = S::parse_with_context(input, context)?;
        Ok((Not { value, _marker: PhantomData }, rest))
    }
}

} // verus!
