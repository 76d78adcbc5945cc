//! `Mapped`: a parsed value converted to another type.
use std::marker::PhantomData;
use vstd::prelude::*;
use vstd::std_specs::cmp::PartialEqSpec;
use vstd::std_specs::convert::IntoSpec;
use vstd::std_specs::convert::FromSpec;

use crate::error::{ErrorModel, ParseResult};
use crate::input::Input;
use crate::parse::offset::{ContextModel, ParseOffsetContext, ParseOffsetInput};
use crate::parse::Parse;

verus! {

/// A conversion from `T` to `U`, named by a type.
pub trait MapFunction<T, U> {
    /// Whether `out` is the conversion of `value`; implementations state it.
    open spec fn map_rel(value: T, out: U) -> bool {
        true
    }

    /// Converts `value`.
    fn map(value: T) -> (r: U)
        ensures
            Self::map_rel(value, r),
    ;
}

/// The conversion by `From`.
#[derive(Debug, Clone, Copy, PartialEq, Eq, Hash, PartialOrd, Ord, Default)]
pub struct IntoMap;

impl<T, U: From<T>> MapFunction<T, U> for IntoMap {
    /// `U::from(value)`, as far as the `From` impl is specified.
    open spec fn map_rel(value: T, out: U) -> bool {
        U::obeys_from_spec() ==> out == U::from_spec(value)
    }

    fn map(value: T) -> (r: U) {
        U::from(value)
    }
}

/// The value parsed as `T`, converted to `U` by `F`.
#[derive(Debug, PartialEq, Eq, Hash)]
pub struct Mapped<T, U, F = IntoMap> {
    value: U,
    _marker: PhantomData<(T, F)>,
}

impl<T, U, F> Mapped<T, U, F> {
    /// The converted value.
    pub closed spec fn spec_value(self) -> U {
        self.value
    }

    /// Wraps the converted value `value`.
    pub fn new(value: U) -> (r: Self)
        ensures
            r.spec_value() == value,
    {
        Mapped { value, _marker: PhantomData }
    }

    /// A reference to the converted value.
    pub fn value(&self) -> (r: &U)
        ensures
            *r == self.spec_value(),
    {
        &self.value
    }

    /// The converted value turned back into `T` by `Into`.
    pub fn into_inner(self) -> (r: T) where U: Into<T>
        ensures
            U::obeys_into_spec() ==> r == self.spec_value().into_spec(),
    {
        self.value.into()
    }
}

/// Whether `T` gives a value from `input` that `F` converts to `u`, leaving `rest`.
pub open spec fn maps_to<'a, I: ParseOffsetInput<'a>, T: Parse<'a, I>, U, F: MapFunction<T, U>>(
    input: I,
    ctx: ContextModel,
    u: U,
    rest: I,
) -> bool {
    exists|t: T| #[trigger] T::parse_rel(input, ctx, Ok((t, rest))) && F::map_rel(t, u)
}

impl<T, U: PartialEq<U>, F> PartialEq<U> for Mapped<T, U, F> {
    fn eq(&self, other: &U) -> (r: bool) {
        self.value == *other
    }
}

impl<T, U: PartialEq<U>, F> vstd::std_specs::cmp::PartialEqSpecImpl<U> for Mapped<T, U, F> {
    open spec fn obeys_eq_spec() -> bool {
        U::obeys_eq_spec()
    }

    open spec fn eq_spec(&self, other: &U) -> bool {
        self.spec_value().eq_spec(other)
    }
}

impl<T, U, F> std::ops::Deref for Mapped<T, U, F> {
    type Target = U;

    fn deref(&self) -> (r: &U)
        ensures
            *r == self.spec_value(),
    {
        &self.value
    }
}

impl<'a, I: ParseOffsetInput<'a>, T: Parse<'a, I>, U, F: MapFunction<T, U>> Parse<'a, I> for Mapped<
    T,
    U,
    F,
> {
    /// What `T` gives, converted by `F`.
    open spec fn parse_rel(input: I, ctx: ContextModel, out: Result<(Mapped<T, U, F>, I), ErrorModel>) -> bool {
        match out {
            Err(e) => T::parse_rel(input, ctx, Err(e)),
            Ok(p) => maps_to::<I, T, U, F>(input, ctx, p.0.spec_value(), p.1),
        }
    }

    fn parse_with_context(input: I, context: &mut ParseOffsetContext) -> (r: ParseResult<
        (Mapped<T, U, F>, I),
    >) {
        let (value, rest) = T::parse_with_context(input, context)?;
        assert(T::parse_rel(input, context@, Ok((value, rest))));
        let u = F::map(value);
        assert(maps_to::<I, T, U, F>(input, context@, u, rest));
        Ok((Mapped::new(u), rest))
    }
}

} // verus!
