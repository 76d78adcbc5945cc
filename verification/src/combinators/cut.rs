//! `Cut`: commits to a parse by making its failures fatal.
use vstd::prelude::*;
use vstd::std_specs::cmp::PartialEqSpec;

use crate::error::{ErrorModel, ParseResult};
use crate::input::Input;
use crate::parse::offset::{ContextModel, ParseOffsetContext, ParseOffsetInput};
use crate::parse::Parse;

verus! {

/// Commits parser failures from `T` by promoting recoverable errors to fatal.
///
/// Useful once a branch has consumed enough structure that falling back to other alternatives
/// would be misleading.
#[derive(Debug, Clone, Copy, PartialEq, Eq, Hash, PartialOrd, Ord, Default)]
pub struct Cut<T>(pub T);

/// Alias for [`Cut`], emphasizing grammar commit semantics.
pub type Commit<T> = Cut<T>;

impl<T> Cut<T> {
    /// Wraps `value`.
    pub fn new(value: T) -> (r: Self)
        ensures
            r.0 == value,
    {
        Cut(value)
    }

    /// The wrapped value.
    pub fn into_inner(self) -> (r: T)
        ensures
            r == self.0,
    {
        self.0
    }

    /// A reference to the wrapped value.
    pub fn inner(&self) -> (r: &T)
        ensures
            *r == self.0,
    {
        &self.0
    }

    /// The wrapped value, for update.
    pub fn inner_mut(&mut self) -> (r: &mut T)
        ensures
            *r == old(self).0,
            final(self).0 == *final(r),
    {
        &mut self.0
    }
}

impl<T: PartialEq<T>> PartialEq<T> for Cut<T> {
    fn eq(&self, other: &T) -> (r: bool) {
        self.0 == *other
    }
}

impl<T: PartialEq<T>> vstd::std_specs::cmp::PartialEqSpecImpl<T> for Cut<T> {
    open spec fn obeys_eq_spec() -> bool {
        T::obeys_eq_spec()
    }

    open spec fn eq_spec(&self, other: &T) -> bool {
        self.0.eq_spec(other)
    }
}

impl<T> std::ops::Deref for Cut<T> {
    type Target = T;

    fn deref(&self) -> (r: &T)
        ensures
            *r == self.0,
    {
        &self.0
    }
}

impl<'a, I: ParseOffsetInput<'a>, T: Parse<'a, I>> Parse<'a, I> for Cut<T> {
    /// What `T` gives, with an error that is not fatal made fatal.
    open spec fn parse_rel(input: I, ctx: ContextModel, out: Result<(Cut<T>, I), ErrorModel>) -> bool {
        match out {
            Err(e) => exists|e0: ErrorModel|
                #[trigger] T::parse_rel(input, ctx, Err(e0)) && e == (if e0.is_fatal() {
                    e0
                } else {
                    e0.into_fatal()
                }),
            Ok(p) => T::parse_rel(input, ctx, Ok((p.0.0, p.1))),
        }
    }

    fn parse_with_context(input: I, context: &mut ParseOffsetContext) -> (r: ParseResult<(Cut<T>, I)>) {
        match T::parse_with_context(input, context) {
            Ok((value, rest)) => Ok((Cut(value), rest)),
            Err(err) => {
                let ghost e0 = err@;
                assert(T::parse_rel(input, context@, Err(e0)));
                if err.is_fatal() {
                    Err(err)
                } else {
                    Err(err.into_fatal())
                }
            },
        }
    }
}

} // verus!
