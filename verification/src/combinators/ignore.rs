//! Parsers whose values are dropped: `Ignore`, `IgnoreMany`, `IgnoreMany1`, and `Count`.
use std::marker::PhantomData;
use vstd::prelude::*;

use crate::combinators::and::And;
use crate::primitives::Whitespace;
use crate::error::{ErrorModel, ParseResult};
use crate::input::Input;
use crate::parse::offset::{ContextModel, ParseOffsetContext, ParseOffsetInput};
use crate::parse::traits::{
    loose_stops, repeat_chain, repeat_from, repeat_loose, repeat_rel, repeat_steps,
};
use crate::parse::Parse;

verus! {

/// Parses `T` and drops its value.
#[derive(Debug, PartialEq, Eq, Hash)]
pub struct Ignore<T>(pub PhantomData<T>);

/// Alias for [`Ignore`].
pub type Forget<T> = Ignore<T>;

/// `P` then `T`, keeping `T`.
pub type Preceded<P, T> = And<Ignore<P>, T>;

/// `T` then `S`, keeping `T`.
pub type Terminated<T, S> = And<T, Ignore<S>>;

/// `S`, `T`, then `E`, keeping `T`.
pub type Between<S, T, E> = And<Ignore<S>, And<T, Ignore<E>>>;

/// `T` with optional whitespace on both sides.
pub type Trim<T> = Between<
    Ignore<Option<Whitespace<&'static str>>>,
    T,
    Ignore<Option<Whitespace<&'static str>>>,
>;

impl<T> And<Ignore<Ignore<Option<Whitespace<&'static str>>>>, And<T, Ignore<Ignore<Option<Whitespace<&'static str>>>>>> {
    /// The trimmed value.
    pub fn value(&self) -> (r: &T)
        ensures
            *r == self.right.left,
    {
        self.right.left()
    }
}

impl<T> Ignore<T> {
    /// The value.
    pub fn new() -> (r: Self)
        ensures
            r == Ignore::<T>(PhantomData),
    {
        Ignore(PhantomData)
    }
}

/// Whether `T` succeeds on `input` leaving `rest`.
pub open spec fn reaches<'a, I: ParseOffsetInput<'a>, T: Parse<'a, I>>(input: I, ctx: ContextModel, rest: I) -> bool {
    exists|v: T| #[trigger] T::parse_rel(input, ctx, Ok((v, rest)))
}

/// Whether repeating `T` succeeds on `input` leaving `rest`.
pub open spec fn repeats_to<'a, I: ParseOffsetInput<'a>, T: Parse<'a, I>>(
    input: I,
    ctx: ContextModel,
    name: Seq<char>,
    rest: I,
) -> bool {
    exists|items: Seq<T>| #[trigger] repeat_rel::<I, T>(input, ctx, name, Ok((items, rest)))
}

impl<'a, I: ParseOffsetInput<'a>, T: Parse<'a, I>> Parse<'a, I> for Ignore<T> {
    /// What `T` gives, without its value.
    open spec fn parse_rel(input: I, ctx: ContextModel, out: Result<(Ignore<T>, I), ErrorModel>) -> bool {
        match out {
            Err(e) => T::parse_rel(input, ctx, Err(e)),
            Ok(p) => reaches::<I, T>(input, ctx, p.1),
        }
    }

    fn parse_with_context(input: I, context: &mut ParseOffsetContext) -> (r: ParseResult<(Ignore<T>, I)>) {
        let (v, rest) = T::parse_with_context(input, context)?;
        assert(T::parse_rel(input, context@, Ok((v, rest))));
        assert(reaches::<I, T>(input, context@, rest));
        Ok((Ignore::new(), rest))
    }
}

/// Zero or more `T`, values dropped.
#[derive(Debug, PartialEq, Eq, Hash)]
pub struct IgnoreMany<T>(pub PhantomData<T>);

impl<T> IgnoreMany<T> {
    /// The value.
    pub fn new() -> (r: Self)
        ensures
            r == IgnoreMany::<T>(PhantomData),
    {
        IgnoreMany(PhantomData)
    }
}

impl<'a, I: ParseOffsetInput<'a>, T: Parse<'a, I>> Parse<'a, I> for IgnoreMany<T> {
    /// What repeating `T` gives, without the values; see [`repeat_rel`].
    open spec fn parse_rel(input: I, ctx: ContextModel, out: Result<(IgnoreMany<T>, I), ErrorModel>) -> bool {
        match out {
            Err(e) => repeat_rel::<I, T>(input, ctx, "IgnoreMany"@, Err(e)),
            Ok(p) => repeats_to::<I, T>(input, ctx, "IgnoreMany"@, p.1),
        }
    }

    fn parse_with_context(input: I, context: &mut ParseOffsetContext) -> (r: ParseResult<
        (IgnoreMany<T>, I),
    >) {
        let ghost ctx = context@;
        let empty: Vec<T> = Vec::new();
        proof {
            assert(repeat_chain::<I, T>(ctx, empty@, seq![input]));
        }
        let (items, rest) = repeat_from(input, context, "IgnoreMany", empty, input)?;
        assert(repeat_rel::<I, T>(input, ctx, "IgnoreMany"@, Ok((items@, rest))));
        assert(repeats_to::<I, T>(input, ctx, "IgnoreMany"@, rest));
        Ok((IgnoreMany::new(), rest))
    }
}

/// One or more `T`, values dropped.
#[derive(Debug, PartialEq, Eq, Hash)]
pub struct IgnoreMany1<T>(pub PhantomData<T>);

impl<T> IgnoreMany1<T> {
    /// The value.
    pub fn new() -> (r: Self)
        ensures
            r == IgnoreMany1::<T>(PhantomData),
    {
        IgnoreMany1(PhantomData)
    }
}

/// Whether a first `T` and then a loose repetition of `T` lead from `input` to `rest`.
pub open spec fn loose_many1<'a, I: ParseOffsetInput<'a>, T: Parse<'a, I>>(input: I, ctx: ContextModel, rest: I) -> bool {
    exists|items: Seq<T>|
        #[trigger] repeat_steps::<I, T>(input, ctx, items, rest) && items.len() > 0 && loose_stops::<
            I,
            T,
        >(rest, ctx)
}

impl<'a, I: ParseOffsetInput<'a>, T: Parse<'a, I>> Parse<'a, I> for IgnoreMany1<T> {
    /// A first `T` (its error passed on), then more until `T` fails in any way or stops
    /// consuming; values dropped.
    open spec fn parse_rel(input: I, ctx: ContextModel, out: Result<(IgnoreMany1<T>, I), ErrorModel>) -> bool {
        match out {
            Err(e) => T::parse_rel(input, ctx, Err(e)),
            Ok(p) => loose_many1::<I, T>(input, ctx, p.1) || (reaches::<I, T>(input, ctx, p.1)
                && p.1.spec_len() >= input.spec_len()),
        }
    }

    fn parse_with_context(input: I, context: &mut ParseOffsetContext) -> (r: ParseResult<
        (IgnoreMany1<T>, I),
    >) {
        let ghost ctx = context@;
        let (first, rest) = T::parse_with_context(input, context)?;
        assert(T::parse_rel(input, ctx, Ok((first, rest))));
        if rest.input_len() >= input.input_len() {
            assert(reaches::<I, T>(input, ctx, rest));
            return Ok((IgnoreMany1::new(), rest));
        }
        let mut items: Vec<T> = Vec::new();
        items.push(first);
        proof {
            assert(repeat_chain::<I, T>(ctx, items@, seq![input, rest]));
        }
        let (all, end) = repeat_loose(input, context, items, rest);
        assert(loose_many1::<I, T>(input, ctx, end));
        Ok((IgnoreMany1::new(), end))
    }
}

/// The number of times `T` parsed in a row.
#[derive(Debug, PartialEq, Eq, Hash)]
pub struct Count<T> {
    pub count: usize,
    _marker: PhantomData<T>,
}

impl<T> Count<T> {
    /// The count.
    pub closed spec fn spec_count(self) -> usize {
        self.count
    }

    /// A count of `count`.
    pub fn new(count: usize) -> (r: Self)
        ensures
            r.spec_count() == count,
    {
        Count { count, _marker: PhantomData }
    }
}

/// Whether a loose repetition of `T` leads from `input` through `n` items to `rest`.
pub open spec fn loose_count<'a, I: ParseOffsetInput<'a>, T: Parse<'a, I>>(input: I, ctx: ContextModel, n: nat, rest: I) -> bool {
    exists|items: Seq<T>|
        #[trigger] repeat_steps::<I, T>(input, ctx, items, rest) && items.len() == n && loose_stops::<
            I,
            T,
        >(rest, ctx)
}

impl<'a, I: ParseOffsetInput<'a>, T: Parse<'a, I>> Parse<'a, I> for Count<T> {
    /// The number of items of `T` parsed until it fails in any way or stops consuming.
    open spec fn parse_rel(input: I, ctx: ContextModel, out: Result<(Count<T>, I), ErrorModel>) -> bool {
        match out {
            Err(_) => false,
            Ok(p) => loose_count::<I, T>(input, ctx, p.0.spec_count() as nat, p.1),
        }
    }

    fn parse_with_context(input: I, context: &mut ParseOffsetContext) -> (r: ParseResult<(Count<T>, I)>) {
        let ghost ctx = context@;
        let empty: Vec<T> = Vec::new();
        proof {
            assert(repeat_chain::<I, T>(ctx, empty@, seq![input]));
        }
        let (items, rest) = repeat_loose(input, context, empty, input);
        assert(loose_count::<I, T>(input, ctx, items@.len(), rest));
        Ok((Count::new(items.len()), rest))
    }
}

} // verus!
