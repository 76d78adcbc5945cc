//! `Peek`: parses without consuming.
use vstd::prelude::*;

use crate::error::{ErrorModel, ParseResult};
use crate::input::Input;
use crate::parse::offset::{ContextModel, ParseOffsetContext, ParseOffsetInput};
use crate::parse::Parse;

verus! {

/// Parses `P` and hands back the value with the input untouched.
#[derive(Debug, Clone, Copy, PartialEq, Eq, Hash, PartialOrd, Ord)]
pub struct Peek<P> {
    pub value: P,
}

/// Whether `P` gives `v` from `input`.
pub open spec fn gives<'a, I: ParseOffsetInput<'a>, P: Parse<'a, I>>(input: I, ctx: ContextModel, v: P) -> bool {
    exists|rest: I| #[trigger] P::parse_rel(input, ctx, Ok((v, rest)))
}

impl<'a, I: ParseOffsetInput<'a>, P: Parse<'a, I>> Parse<'a, I> for Peek<P> {
    /// What `P` gives, with the rest of the input replaced by the input itself.
    open spec fn parse_rel(input: I, ctx: ContextModel, out: Result<(Peek<P>, I), ErrorModel>) -> bool {
        match out {
            Err(e) => P::parse_rel(input, ctx, Err(e)),
            Ok(p) => p.1 == input && gives::<I, P>(input, ctx, p.0.value),
        }
    }

    fn parse_with_context(input: I, context: &mut ParseOffsetContext) -> (r: ParseResult<(Peek<P>, I)>) {
        match P::parse_with_context(input, context) {
            Ok((value, rest)) => {
                assert(P::parse_rel(input, context@, Ok((value, rest))));
                assert(gives::<I, P>(input, context@, value));
                Ok((Peek { value }, input))
            },
            Err(e) => Err(e),
        }
    }
}

} // verus!
