//! `Delimited` and `DelimitedExact`: a value between a start and an end parser.
use vstd::prelude::*;

use crate::error::{ErrorModel, ParseResult};
use crate::input::Input;
use crate::parse::offset::{ContextModel, ParseOffsetContext, ParseOffsetInput};
use crate::parse::Parse;

verus! {

/// `I` between `S` and `E`, with whitespace skipped before each of the three.
#[derive(Debug, Clone, PartialEq, Eq, Hash, PartialOrd, Ord)]
pub struct Delimited<S, E, I> {
    pub start: S,
    pub end: E,
    pub inner: I,
}

impl<S, E, I> Delimited<S, E, I> {
    /// Applies `f` to the inner value.
    pub fn map_inner<J, F: FnOnce(I) -> J>(self, f: F) -> (r: Delimited<S, E, J>)
        requires
            f.requires((self.inner,)),
        ensures
            r.start == self.start,
            r.end == self.end,
            f.ensures((self.inner,), r.inner),
    {
        Delimited { start: self.start, end: self.end, inner: f(self.inner) }
    }

    /// The inner value.
    pub fn into_inner(self) -> (r: I)
        ensures
            r == self.inner,
    {
        self.inner
    }

    /// A reference to the inner value.
    pub fn inner(&self) -> (r: &I)
        ensures
            *r == self.inner,
    {
        &self.inner
    }

    /// The inner value, for update.
    pub fn inner_mut(&mut self) -> (r: &mut I)
        ensures
            *r == old(self).inner,
            final(self).inner == *final(r),
            final(self).start == old(self).start,
            final(self).end == old(self).end,
    {
        &mut self.inner
    }
}

/// Whether `S`, `I` and `E` give `v` and `rest` from `input`.
pub open spec fn delimited_ok<'a, In: ParseOffsetInput<'a>, S: Parse<'a, In>, E: Parse<'a, In>, I: Parse<'a, In>>(
    input: In,
    ctx: ContextModel,
    start: S,
    inner: I,
    end: E,
    rest: In,
) -> bool {
    exists|m1: In, m2: In|
        #![trigger S::parse_rel(input.spec_trim_start(), ctx, Ok((start, m1))), I::parse_rel(m1.spec_trim_start(), ctx, Ok((inner, m2)))]
        S::parse_rel(input.spec_trim_start(), ctx, Ok((start, m1))) && I::parse_rel(m1.spec_trim_start(), ctx, Ok((inner, m2)))
            && E::parse_rel(m2.spec_trim_start(), ctx, Ok((end, rest)))
}

/// Whether `S`, `I` or `E` fails with `e` after the ones before it succeeded.
pub open spec fn delimited_err<'a, In: ParseOffsetInput<'a>, S: Parse<'a, In>, E: Parse<'a, In>, I: Parse<'a, In>>(
    input: In,
    ctx: ContextModel,
    e: ErrorModel,
) -> bool {
    ||| S::parse_rel(input.spec_trim_start(), ctx, Err(e))
    ||| exists|s: S, m1: In|
        #[trigger] S::parse_rel(input.spec_trim_start(), ctx, Ok((s, m1))) && I::parse_rel(m1.spec_trim_start(), ctx, Err(e))
    ||| exists|s: S, m1: In, i: I, m2: In|
        #![trigger S::parse_rel(input.spec_trim_start(), ctx, Ok((s, m1))), I::parse_rel(m1.spec_trim_start(), ctx, Ok((i, m2)))]
        S::parse_rel(input.spec_trim_start(), ctx, Ok((s, m1))) && I::parse_rel(m1.spec_trim_start(), ctx, Ok((i, m2))) && E::parse_rel(
            m2.spec_trim_start(),
            ctx,
            Err(e),
        )
}

impl<'a, In: ParseOffsetInput<'a>, S: Parse<'a, In>, E: Parse<'a, In>, I: Parse<'a, In>> Parse<'a, In> for Delimited<S, E, I> {
    /// `S`, `I`, then `E`; the first error stops the parse.
    open spec fn parse_rel(input: In, ctx: ContextModel, out: Result<(Delimited<S, E, I>, In), ErrorModel>) -> bool {
        match out {
            Err(e) => delimited_err::<In, S, E, I>(input, ctx, e),
            Ok(p) => delimited_ok::<In, S, E, I>(input, ctx, p.0.start, p.0.inner, p.0.end, p.1),
        }
    }

    fn parse_with_context(input: In, context: &mut ParseOffsetContext) -> (r: ParseResult<
        (Delimited<S, E, I>, In),
    >) {
        let ghost ctx = context@;
        let (start, m1) = match S::parse_with_context(input.trim_start(), context) {
            Ok(v) => v,
            Err(e) => {
                return Err(e);
            },
        };
        assert(S::parse_rel(input.spec_trim_start(), ctx, Ok((start, m1))));
        let (inner, m2) = match I::parse_with_context(m1.trim_start(), context) {
            Ok(v) => v,
            Err(e) => {
                assert(I::parse_rel(m1.spec_trim_start(), ctx, Err(e@)));
                return Err(e);
            },
        };
        assert(I::parse_rel(m1.spec_trim_start(), ctx, Ok((inner, m2))));
        match E::parse_with_context(m2.trim_start(), context) {
            Ok((end, rest)) => {
                assert(E::parse_rel(m2.spec_trim_start(), ctx, Ok((end, rest))));
                assert(delimited_ok::<In, S, E, I>(input, ctx, start, inner, end, rest));
                Ok((Self { start, end, inner }, rest))
            },
            Err(e) => {
                assert(E::parse_rel(m2.spec_trim_start(), ctx, Err(e@)));
                Err(e)
            },
        }
    }
}

/// `I` between two `E`.
pub type Padded<E, I> = Delimited<E, E, I>;

/// `S`, `I` and `E` in sequence, with no whitespace skipped.
#[derive(Debug, Clone, PartialEq, Eq, Hash, PartialOrd, Ord)]
pub struct DelimitedExact<S, E, I> {
    pub start: S,
    pub end: E,
    pub inner: I,
}

impl<S, E, I> DelimitedExact<S, E, I> {
    /// Applies `f` to the inner value.
    pub fn map_inner<J, F: FnOnce(I) -> J>(self, f: F) -> (r: DelimitedExact<S, E, J>)
        requires
            f.requires((self.inner,)),
        ensures
            r.start == self.start,
            r.end == self.end,
            f.ensures((self.inner,), r.inner),
    {
        DelimitedExact { start: self.start, end: self.end, inner: f(self.inner) }
    }

    /// The inner value.
    pub fn into_inner(self) -> (r: I)
        ensures
            r == self.inner,
    {
        self.inner
    }

    /// A reference to the inner value.
    pub fn inner(&self) -> (r: &I)
        ensures
            *r == self.inner,
    {
        &self.inner
    }

    /// The inner value, for update.
    pub fn inner_mut(&mut self) -> (r: &mut I)
        ensures
            *r == old(self).inner,
            final(self).inner == *final(r),
            final(self).start == old(self).start,
            final(self).end == old(self).end,
    {
        &mut self.inner
    }
}

/// Whether `S`, `I` and `E` give `v` and `rest` from `input`.
pub open spec fn delimitedexact_ok<'a, In: ParseOffsetInput<'a>, S: Parse<'a, In>, E: Parse<'a, In>, I: Parse<'a, In>>(
    input: In,
    ctx: ContextModel,
    start: S,
    inner: I,
    end: E,
    rest: In,
) -> bool {
    exists|m1: In, m2: In|
        #![trigger S::parse_rel(input, ctx, Ok((start, m1))), I::parse_rel(m1, ctx, Ok((inner, m2)))]
        S::parse_rel(input, ctx, Ok((start, m1))) && I::parse_rel(m1, ctx, Ok((inner, m2)))
            && E::parse_rel(m2, ctx, Ok((end, rest)))
}

/// Whether `S`, `I` or `E` fails with `e` after the ones before it succeeded.
pub open spec fn delimitedexact_err<'a, In: ParseOffsetInput<'a>, S: Parse<'a, In>, E: Parse<'a, In>, I: Parse<'a, In>>(
    input: In,
    ctx: ContextModel,
    e: ErrorModel,
) -> bool {
    ||| S::parse_rel(input, ctx, Err(e))
    ||| exists|s: S, m1: In|
        #[trigger] S::parse_rel(input, ctx, Ok((s, m1))) && I::parse_rel(m1, ctx, Err(e))
    ||| exists|s: S, m1: In, i: I, m2: In|
        #![trigger S::parse_rel(input, ctx, Ok((s, m1))), I::parse_rel(m1, ctx, Ok((i, m2)))]
        S::parse_rel(input, ctx, Ok((s, m1))) && I::parse_rel(m1, ctx, Ok((i, m2))) && E::parse_rel(
            m2,
            ctx,
            Err(e),
        )
}

impl<'a, In: ParseOffsetInput<'a>, S: Parse<'a, In>, E: Parse<'a, In>, I: Parse<'a, In>> Parse<'a, In> for DelimitedExact<S, E, I> {
    /// `S`, `I`, then `E`; the first error stops the parse.
    open spec fn parse_rel(input: In, ctx: ContextModel, out: Result<(DelimitedExact<S, E, I>, In), ErrorModel>) -> bool {
        match out {
            Err(e) => delimitedexact_err::<In, S, E, I>(input, ctx, e),
            Ok(p) => delimitedexact_ok::<In, S, E, I>(input, ctx, p.0.start, p.0.inner, p.0.end, p.1),
        }
    }

    fn parse_with_context(input: In, context: &mut ParseOffsetContext) -> (r: ParseResult<
        (DelimitedExact<S, E, I>, In),
    >) {
        let ghost ctx = context@;
        let (start, m1) = match S::parse_with_context(input, context) {
            Ok(v) => v,
            Err(e) => {
                return Err(e);
            },
        };
        assert(S::parse_rel(input, ctx, Ok((start, m1))));
        let (inner, m2) = match I::parse_with_context(m1, context) {
            Ok(v) => v,
            Err(e) => {
                assert(I::parse_rel(m1, ctx, Err(e@)));
                return Err(e);
            },
        };
        assert(I::parse_rel(m1, ctx, Ok((inner, m2))));
        match E::parse_with_context(m2, context) {
            Ok((end, rest)) => {
                assert(E::parse_rel(m2, ctx, Ok((end, rest))));
                assert(delimitedexact_ok::<In, S, E, I>(input, ctx, start, inner, end, rest));
                Ok((Self { start, end, inner }, rest))
            },
            Err(e) => {
                assert(E::parse_rel(m2, ctx, Err(e@)));
                Err(e)
            },
        }
    }
}

/// `I` between two `E`, with no whitespace skipped.
pub type PaddedExact<E, I> = DelimitedExact<E, E, I>;

} // verus!
