//! `AndIs`: parses `A` and checks that `B` accepts exactly what `A` consumed.
use std::marker::PhantomData;
use vstd::prelude::*;

use crate::error::{ErrorModel, ParseError, ParseResult};
use crate::input::Input;
use crate::parse::offset::{ContextModel, ParseOffsetContext, ParseOffsetInput};
use crate::parse::Parse;

verus! {

/// `A`, validated by `B` over the segment `A` consumed.
#[derive(Debug, PartialEq, Eq, Hash)]
pub struct AndIs<A, B> {
    pub value: A,
    _marker: PhantomData<B>,
}

impl<A, B> AndIs<A, B> {
    /// The wrapped value.
    pub closed spec fn spec_value(self) -> A {
        self.value
    }

    /// The value `value`.
    pub closed spec fn spec_of(value: A) -> Self {
        AndIs { value, _marker: PhantomData }
    }

    /// Wraps `value`.
    pub fn new(value: A) -> (r: Self)
        ensures
            r == Self::spec_of(value),
            r.spec_value() == value,
    {
        AndIs { value, _marker: PhantomData }
    }

    /// The wrapped value.
    pub fn into_inner(self) -> (r: A)
        ensures
            r == self.spec_value(),
    {
        self.value
    }

    /// A reference to the wrapped value.
    pub fn inner(&self) -> (r: &A)
        ensures
            *r == self.spec_value(),
    {
        &self.value
    }

    /// The wrapped value, for update.
    pub fn inner_mut(&mut self) -> (r: &mut A)
        ensures
            *r == old(self).spec_value(),
            *final(self) == Self::spec_of(*final(r)),
    {
        &mut self.value
    }
}

/// Whether `B` succeeds on `segment` leaving nothing (`empty`) or leaving something.
pub open spec fn leaves<'a, I: ParseOffsetInput<'a>, B: Parse<'a, I>>(segment: I, ctx: ContextModel, empty: bool) -> bool {
    exists|b: B, left: I| #[trigger] B::parse_rel(segment, ctx, Ok((b, left))) && left.spec_is_empty() == empty
}

/// The error when the validator leaves part of the segment.
pub open spec fn and_is_error() -> ErrorModel {
    ErrorModel::Custom("AndIs validator parser did not consume the full parsed segment"@)
}

/// What validating the segment of `input` up to `rest` with `B` gives: nothing when `B`
/// consumes all of it, else the error.
pub open spec fn and_is_check<'a, I: ParseOffsetInput<'a>, B: Parse<'a, I>>(
    input: I,
    rest: I,
    ctx: ContextModel,
    outcome: Result<(), ErrorModel>,
) -> bool {
    match input.spec_slice_to(rest) {
        Err(e) => outcome == Err::<(), ErrorModel>(e),
        Ok(segment) => match outcome {
            Err(e) => B::parse_rel(segment, ctx, Err(e)) || (e == and_is_error() && leaves::<I, B>(
                segment,
                ctx,
                false,
            )),
            Ok(_) => leaves::<I, B>(segment, ctx, true),
        },
    }
}

impl<A, B> std::ops::Deref for AndIs<A, B> {
    type Target = A;

    fn deref(&self) -> (r: &A)
        ensures
            *r == self.spec_value(),
    {
        &self.value
    }
}

impl<'a, I: ParseOffsetInput<'a>, A: Parse<'a, I>, B: Parse<'a, I>> Parse<'a, I> for AndIs<A, B> {
    /// What `A` gives, when `B` accepts all of the segment `A` consumed.
    open spec fn parse_rel(input: I, ctx: ContextModel, out: Result<(AndIs<A, B>, I), ErrorModel>) -> bool {
        match out {
            Err(e) => A::parse_rel(input, ctx, Err(e)) || exists|a: A, rest: I|
                #[trigger] A::parse_rel(input, ctx, Ok((a, rest))) && and_is_check::<I, B>(
                    input,
                    rest,
                    ctx,
                    Err(e),
                ),
            Ok(p) => p.0 == Self::spec_of(p.0.spec_value()) && A::parse_rel(input, ctx, Ok((p.0.spec_value(), p.1))) && and_is_check::<I, B>(
                input,
                p.1,
                ctx,
                Ok(()),
            ),
        }
    }

    fn parse_with_context(input: I, context: &mut ParseOffsetContext) -> (r: ParseResult<
        (AndIs<A, B>, I),
    >) {
        let ghost ctx = context@;
        let (value, remaining) = match A::parse_with_context(input, context) {
            Ok(v) => v,
            Err(e) => {
                return Err(e);
            },
        };
        assert(A::parse_rel(input, ctx, Ok((value, remaining))));
        let parsed = match input.slice_to(remaining) {
            Ok(p) => p,
            Err(e) => {
                assert(and_is_check::<I, B>(input, remaining, ctx, Err(e@)));
                return Err(e);
            },
        };
        match B::parse_with_context(parsed, context) {
            Ok((b, left)) => {
                assert(B::parse_rel(parsed, ctx, Ok((b, left))));
                assert(leaves::<I, B>(parsed, ctx, left.spec_is_empty()));
                if !left.is_empty() {
                    let err = ParseError::custom(
                        "AndIs validator parser did not consume the full parsed segment",
                    );
                    assert(and_is_check::<I, B>(input, remaining, ctx, Err(err@)));
                    return Err(err);
                }
                assert(and_is_check::<I, B>(input, remaining, ctx, Ok(())));
                Ok((AndIs::new(value), remaining))
            },
            Err(e) => {
                assert(B::parse_rel(parsed, ctx, Err(e@)));
                assert(and_is_check::<I, B>(input, remaining, ctx, Err(e@)));
                Err(e)
            },
        }
    }
}

} // verus!
