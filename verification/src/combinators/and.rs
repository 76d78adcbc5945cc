//! `And`: two parsers in sequence.
use vstd::prelude::*;

use crate::error::{ErrorModel, ParseResult};
use crate::input::Input;
use crate::parse::offset::{ContextModel, ParseOffsetContext, ParseOffsetInput};
use crate::parse::Parse;

verus! {

/// `A` followed by `B`; whitespace between them is left to the parsers (see `Ws`).
#[derive(Debug, Clone, Copy, PartialEq, Eq, Hash, PartialOrd, Ord, Default)]
pub struct And<A, B> {
    pub left: A,
    pub right: B,
}

impl<A, B> And<A, B> {
    /// The pair of `left` and `right`.
    pub fn new(left: A, right: B) -> (r: Self)
        ensures
            r.left == left,
            r.right == right,
    {
        And { left, right }
    }

    /// The left value.
    pub fn left(&self) -> (r: &A)
        ensures
            *r == self.left,
    {
        &self.left
    }

    /// The right value.
    pub fn right(&self) -> (r: &B)
        ensures
            *r == self.right,
    {
        &self.right
    }

    /// The left value, for update.
    pub fn left_mut(&mut self) -> (r: &mut A)
        ensures
            *r == old(self).left,
            final(self).left == *final(r),
            final(self).right == old(self).right,
    {
        &mut self.left
    }

    /// The right value, for update.
    pub fn right_mut(&mut self) -> (r: &mut B)
        ensures
            *r == old(self).right,
            final(self).right == *final(r),
            final(self).left == old(self).left,
    {
        &mut self.right
    }

    /// The two values.
    pub fn into_parts(self) -> (r: (A, B))
        ensures
            r == (self.left, self.right),
    {
        (self.left, self.right)
    }
}

impl<A, B, C> And<A, And<B, C>> {
    /// The three values of a right-nested pair.
    pub fn flatten(self) -> (r: (A, B, C))
        ensures
            r == (self.left, self.right.left, self.right.right),
    {
        (self.left, self.right.left, self.right.right)
    }
}

/// Whether `A` gives `a` from `input` and `B` then gives `b` and `rest` from what follows.
pub open spec fn and_ok<'a, I: ParseOffsetInput<'a>, A: Parse<'a, I>, B: Parse<'a, I>>(
    input: I,
    ctx: ContextModel,
    a: A,
    b: B,
    rest: I,
) -> bool {
    exists|mid: I|
        #[trigger] A::parse_rel(input, ctx, Ok((a, mid))) && B::parse_rel(
            mid,
            ctx,
            Ok((b, rest)),
        )
}

/// Whether `A` fails with `e`, or succeeds and `B` then fails with `e`.
pub open spec fn and_err<'a, I: ParseOffsetInput<'a>, A: Parse<'a, I>, B: Parse<'a, I>>(
    input: I,
    ctx: ContextModel,
    e: ErrorModel,
) -> bool {
    A::parse_rel(input, ctx, Err(e)) || exists|a: A, mid: I|
        #[trigger] A::parse_rel(input, ctx, Ok((a, mid))) && B::parse_rel(
            mid,
            ctx,
            Err(e),
        )
}

impl<'a, I: ParseOffsetInput<'a>, A: Parse<'a, I>, B: Parse<'a, I>> Parse<'a, I> for And<A, B> {
    /// `A`, then `B` from where `A` stopped; see [`and_ok`] and [`and_err`].
    open spec fn parse_rel(input: I, ctx: ContextModel, out: Result<(And<A, B>, I), ErrorModel>) -> bool {
        match out {
            Err(e) => and_err::<I, A, B>(input, ctx, e),
            Ok(p) => and_ok::<I, A, B>(input, ctx, p.0.left, p.0.right, p.1),
        }
    }

    fn parse_with_context(input: I, context: &mut ParseOffsetContext) -> (r: ParseResult<
        (And<A, B>, I),
    >) {
        let ghost ctx = context@;
        let (left, mid) = match A::parse_with_context(input, context) {
            Ok(v) => v,
            Err(e) => {
                return Err(e);
            },
        };
        assert(A::parse_rel(input, ctx, Ok((left, mid))));
        match B::parse_with_context(mid, context) {
            Ok((right, rest)) => {
                assert(B::parse_rel(mid, ctx, Ok((right, rest))));
                assert(and_ok::<I, A, B>(input, ctx, left, right, rest));
                Ok((And { left, right }, rest))
            },
            Err(e) => {
                assert(B::parse_rel(mid, ctx, Err(e@)));
                Err(e)
            },
        }
    }
}

} // verus!
