//! `Ws`: skips leading whitespace before parsing.
use vstd::prelude::*;
use vstd::std_specs::cmp::PartialEqSpec;

use crate::error::{ErrorModel, ParseResult};
use crate::input::Input;
use crate::parse::offset::{ContextModel, ParseOffsetContext, ParseOffsetInput};
use crate::parse::Parse;

verus! {

/// A wrapper parser that trims leading whitespace before parsing `T`.
#[derive(Debug, Clone, Copy, PartialEq, Eq, Hash, PartialOrd, Ord, Default)]
pub struct Ws<T>(pub T);

impl<T> Ws<T> {
    /// Wraps `value`.
    pub fn new(value: T) -> (r: Self)
        ensures
            r.0 == value,
    {
        Ws(value)
    }

    /// The wrapped value.
    pub fn into_inner(self) -> (r: T)
        ensures
            r == self.0,
    {
        self.0
    }

    /// A reference to the wrapped value.
    pub fn inner(&self) -> (r: &T)
        ensures
            *r == self.0,
    {
        &self.0
    }
}

impl<T> std::ops::Deref for Ws<T> {
    type Target = T;

    fn deref(&self) -> (r: &T)
        ensures
            *r == self.0,
    {
        &self.0
    }
}

impl<T: PartialEq<T>> PartialEq<T> for Ws<T> {
    fn eq(&self, other: &T) -> (r: bool) {
        self.0 == *other
    }
}

impl<T: PartialEq<T>> vstd::std_specs::cmp::PartialEqSpecImpl<T> for Ws<T> {
    open spec fn obeys_eq_spec() -> bool {
        T::obeys_eq_spec()
    }

    open spec fn eq_spec(&self, other: &T) -> bool {
        self.0.eq_spec(other)
    }
}

impl<'a, I: ParseOffsetInput<'a>, T: Parse<'a, I>> Parse<'a, I> for Ws<T> {
    /// What `T` gives from the input after its leading whitespace.
    open spec fn parse_rel(input: I, ctx: ContextModel, out: Result<(Ws<T>, I), ErrorModel>) -> bool {
        match out {
            Err(e) => T::parse_rel(input.spec_trim_start(), ctx, Err(e)),
            Ok(p) => T::parse_rel(input.spec_trim_start(), ctx, Ok((p.0.0, p.1))),
        }
    }

    fn parse_with_context(input: I, context: &mut ParseOffsetContext) -> (r: ParseResult<(Ws<T>, I)>) {
        match T::parse_with_context(input.trim_start(), context) {
            Ok((value, rest)) => Ok((Ws(value), rest)),
            Err(e) => Err(e),
        }
    }
}

/// `parse_ws` on every type: parses it after the input's leading whitespace.
pub trait WsExt: Sized {
    /// Parses `Self` from `input` after its leading whitespace, with a root anchored at
    /// `input`, wrapped in `Ws`.
    fn parse_ws<'a, I: ParseOffsetInput<'a>>(input: I) -> (r: ParseResult<(Ws<Self>, I)>) where
        Self: Parse<'a, I>,

        ensures
            Ws::<Self>::parse_rel(
                input,
                ContextModel::rooted(input.spec_anchor()),
                crate::input::res_model(r),
            ),
    {
        Ws::<Self>::parse(input)
    }
}

impl<T> WsExt for T {

}

} // verus!
