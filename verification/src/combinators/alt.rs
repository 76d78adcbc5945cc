//! `Alt`: the first of two parsers that succeeds.
use vstd::prelude::*;

use crate::error::{ErrorModel, ParseResult};
use crate::input::Input;
use crate::parse::offset::{ContextModel, ParseOffsetContext, ParseOffsetInput};
use crate::parse::Parse;

verus! {

/// The value of the first of two parsers that succeeded.
#[derive(Debug, Clone, PartialEq, Eq, Hash, PartialOrd, Ord)]
pub enum Alt<A, B> {
    Left(A),
    Right(B),
}

impl<A, B> Alt<A, B> {
    /// Whether this is the left alternative.
    pub fn is_left(&self) -> (r: bool)
        ensures
            r == (*self is Left),
    {
        match self {
            Alt::Left(_) => true,
            Alt::Right(_) => false,
        }
    }

    /// Whether this is the right alternative.
    pub fn is_right(&self) -> (r: bool)
        ensures
            r == (*self is Right),
    {
        match self {
            Alt::Left(_) => false,
            Alt::Right(_) => true,
        }
    }

    /// The left value, if this is the left alternative.
    pub fn left(&self) -> (r: Option<&A>)
        ensures
            match *self {
                Alt::Left(a) => r == Some(&a),
                Alt::Right(_) => r is None,
            },
    {
        match self {
            Alt::Left(value) => Some(value),
            Alt::Right(_) => None,
        }
    }

    /// The right value, if this is the right alternative.
    pub fn right(&self) -> (r: Option<&B>)
        ensures
            match *self {
                Alt::Left(_) => r is None,
                Alt::Right(b) => r == Some(&b),
            },
    {
        match self {
            Alt::Left(_) => None,
            Alt::Right(value) => Some(value),
        }
    }

    /// The left value, for update, if this is the left alternative.
    pub fn left_mut(&mut self) -> (r: Option<&mut A>)
        ensures
            match *old(self) {
                Alt::Left(a) => r matches Some(x) && *x == a && *final(self) == Alt::<A, B>::Left(
                    *final(x),
                ),
                Alt::Right(_) => r is None && *final(self) == *old(self),
            },
    {
        match self {
            Alt::Left(value) => Some(value),
            Alt::Right(_) => None,
        }
    }

    /// The right value, for update, if this is the right alternative.
    pub fn right_mut(&mut self) -> (r: Option<&mut B>)
        ensures
            match *old(self) {
                Alt::Left(_) => r is None && *final(self) == *old(self),
                Alt::Right(b) => r matches Some(y) && *y == b && *final(self) == Alt::<A, B>::Right(
                    *final(y),
                ),
            },
    {
        match self {
            Alt::Left(_) => None,
            Alt::Right(value) => Some(value),
        }
    }

    /// The alternative with its value borrowed for update.
    pub fn as_mut(&mut self) -> (r: Alt<&mut A, &mut B>)
        ensures
            match *old(self) {
                Alt::Left(a) => r matches Alt::Left(x) && *x == a && *final(self) == Alt::<A, B>::Left(
                    *final(x),
                ),
                Alt::Right(b) => r matches Alt::Right(y) && *y == b && *final(self) == Alt::<A, B>::Right(
                    *final(y),
                ),
            },
    {
        match self {
            Alt::Left(value) => Alt::Left(value),
            Alt::Right(value) => Alt::Right(value),
        }
    }

    /// The left value, if this is the left alternative.
    pub fn into_left(self) -> (r: Option<A>)
        ensures
            match self {
                Alt::Left(a) => r == Some(a),
                Alt::Right(_) => r is None,
            },
    {
        match self {
            Alt::Left(value) => Some(value),
            Alt::Right(_) => None,
        }
    }

    /// The right value, if this is the right alternative.
    pub fn into_right(self) -> (r: Option<B>)
        ensures
            match self {
                Alt::Left(_) => r is None,
                Alt::Right(b) => r == Some(b),
            },
    {
        match self {
            Alt::Left(_) => None,
            Alt::Right(value) => Some(value),
        }
    }

    /// The alternative with its value borrowed.
    pub fn as_ref(&self) -> (r: Alt<&A, &B>)
        ensures
            match *self {
                Alt::Left(a) => r == Alt::<&A, &B>::Left(&a),
                Alt::Right(b) => r == Alt::<&A, &B>::Right(&b),
            },
    {
        match self {
            Alt::Left(value) => Alt::Left(value),
            Alt::Right(value) => Alt::Right(value),
        }
    }

    /// Applies `map` to the left value.
    pub fn map_left<C, F: FnOnce(A) -> C>(self, map: F) -> (r: Alt<C, B>)
        requires
            self matches Alt::Left(a) ==> map.requires((a,)),
        ensures
            match self {
                Alt::Left(a) => r matches Alt::Left(c) && map.ensures((a,), c),
                Alt::Right(b) => r == Alt::<C, B>::Right(b),
            },
    {
        match self {
            Alt::Left(value) => Alt::Left(map(value)),
            Alt::Right(value) => Alt::Right(value),
        }
    }

    /// Applies `map` to the right value.
    pub fn map_right<C, F: FnOnce(B) -> C>(self, map: F) -> (r: Alt<A, C>)
        requires
            self matches Alt::Right(b) ==> map.requires((b,)),
        ensures
            match self {
                Alt::Left(a) => r == Alt::<A, C>::Left(a),
                Alt::Right(b) => r matches Alt::Right(c) && map.ensures((b,), c),
            },
    {
        match self {
            Alt::Left(value) => Alt::Left(value),
            Alt::Right(value) => Alt::Right(map(value)),
        }
    }

    /// Folds the alternative into one value with `left` or `right`.
    pub fn either<T, FL: FnOnce(A) -> T, FR: FnOnce(B) -> T>(self, left: FL, right: FR) -> (r: T)
        requires
            self matches Alt::Left(a) ==> left.requires((a,)),
            self matches Alt::Right(b) ==> right.requires((b,)),
        ensures
            match self {
                Alt::Left(a) => left.ensures((a,), r),
                Alt::Right(b) => right.ensures((b,), r),
            },
    {
        match self {
            Alt::Left(value) => left(value),
            Alt::Right(value) => right(value),
        }
    }
}

impl<'a, I: ParseOffsetInput<'a>, A: Parse<'a, I>, B: Parse<'a, I>> Parse<'a, I> for Alt<A, B> {
    /// What `A` gives; when `A` fails in any way, what `B` gives from the same input.
    open spec fn parse_rel(input: I, ctx: ContextModel, out: Result<(Alt<A, B>, I), ErrorModel>) -> bool {
        match out {
            Ok((Alt::Left(a), rest)) => A::parse_rel(input, ctx, Ok((a, rest))),
            Ok((Alt::Right(b), rest)) => crate::parse::traits::fails::<I, A>(input, ctx) && B::parse_rel(
                input,
                ctx,
                Ok((b, rest)),
            ),
            Err(e) => crate::parse::traits::fails::<I, A>(input, ctx) && B::parse_rel(input, ctx, Err(e)),
        }
    }

    fn parse_with_context(input: I, context: &mut ParseOffsetContext) -> (r: ParseResult<(Alt<A, B>, I)>) {
        match A::parse_with_context(input, context) {
            Ok((a, rest)) => Ok((Alt::Left(a), rest)),
            Err(e) => {
                assert(A::parse_rel(input, context@, Err(e@)));
                match B::parse_with_context(input, context) {
                    Ok((b, rest)) => Ok((Alt::Right(b), rest)),
                    Err(e2) => Err(e2),
                }
            },
        }
    }
}

} // verus!
