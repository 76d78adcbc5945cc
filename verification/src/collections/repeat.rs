//! `Repeat`: a bounded number of items; `RepeatUntil`: items up to a terminator.
use std::marker::PhantomData;
use vstd::prelude::*;

use crate::error::{ErrorModel, ParseError, ParseResult};
use crate::input::Input;
use crate::parse::offset::{ContextModel, ParseOffsetContext, ParseOffsetInput};
use crate::parse::traits::{
    fails_softly, no_progress, no_progress_error, repeat_breaks, repeat_chain, repeat_steps,
};
use crate::parse::Parse;
use crate::text::{decimal_chars, decimal_string};

verus! {

/// Between `MIN` and `MAX` items.
#[derive(Debug, PartialEq, Eq, Hash, PartialOrd, Ord)]
pub struct Repeat<T, const MIN: usize, const MAX: usize> {
    items: Vec<T>,
}

/// At most `N` items.
pub type MaxN<T, const N: usize> = Repeat<T, 0, N>;

impl<T, const MIN: usize, const MAX: usize> Repeat<T, MIN, MAX> {
    /// The items.
    pub closed spec fn spec_items(self) -> Seq<T> {
        self.items@
    }

    /// The items.
    pub fn items(&self) -> (r: &[T])
        ensures
            r@ == self.spec_items(),
    {
        self.items.as_slice()
    }

    /// The items, by value.
    pub fn into_items(self) -> (r: Vec<T>)
        ensures
            r@ == self.spec_items(),
    {
        self.items
    }

    /// The number of items.
    pub fn len(&self) -> (r: usize)
        ensures
            r == self.spec_items().len(),
    {
        self.items.len()
    }

    /// Whether there are no items.
    pub fn is_empty(&self) -> (r: bool)
        ensures
            r == (self.spec_items().len() == 0),
    {
        self.items.len() == 0
    }
}

/// The message for a repetition that found `found` items where `min` were needed.
pub open spec fn too_few_message(min: usize, found: nat) -> Seq<char> {
    "expected at least "@ + decimal_chars(min as nat) + " items, found "@ + decimal_chars(found)
}

/// What parsing between `min` and `max` items of `T` gives: the items parsed until `T` fails
/// softly or `max` items are reached, when there are at least `min` of them.
pub open spec fn bounded_rel<'a, I: ParseOffsetInput<'a>, T: Parse<'a, I>>(
    input: I,
    ctx: ContextModel,
    min: usize,
    max: usize,
    out: Result<(Seq<T>, I), ErrorModel>,
) -> bool {
    match out {
        Ok((items, rest)) => repeat_steps::<I, T>(input, ctx, items, rest) && items.len() <= max && (
        items.len() == max || fails_softly::<I, T>(rest, ctx)) && items.len() >= min,
        Err(e) => exists|items: Seq<T>, at: I|
            #[trigger] repeat_steps::<I, T>(input, ctx, items, at) && items.len() <= max && (
            (items.len() < max && repeat_breaks::<I, T>(at, ctx, "Repeat"@, e)) || ((items.len()
                == max || fails_softly::<I, T>(at, ctx)) && items.len() < min && e
                == ErrorModel::Custom(too_few_message(min, items.len())))),
    }
}

/// Parses between `min` and `max` items of `T` from `input`; see [`bounded_rel`].
pub fn parse_bounded<'a, I: ParseOffsetInput<'a>, T: Parse<'a, I>>(
    input: I,
    context: &mut ParseOffsetContext,
    min: usize,
    max: usize,
) -> (r: ParseResult<(Vec<T>, I)>)
    ensures
        bounded_rel::<I, T>(input, old(context)@, min, max, crate::parse::traits::vec_model(r)),
        final(context)@ == old(context)@,
{
    let ghost ctx = context@;
    let mut items: Vec<T> = Vec::new();
    let mut cur = input;
    let ghost mut mids: Seq<I> = seq![input];
    let mut stopped = false;
    while items.len() < max && !stopped
        invariant
            context@ == ctx,
            ctx == old(context)@,
            repeat_chain::<I, T>(ctx, items@, mids),
            mids[0] == input,
            mids.last() == cur,
            items@.len() <= max,
            stopped ==> fails_softly::<I, T>(cur, ctx),
        decreases cur.spec_len() + if stopped { 0int } else { 1int },
    {
        match T::parse_with_context(cur, context) {
            Ok((item, remaining)) => {
                assert(T::parse_rel(cur, ctx, Ok((item, remaining))));
                if remaining.input_len() >= cur.input_len() {
                    let err = no_progress("Repeat");
                    proof {
                        assert(repeat_steps::<I, T>(input, ctx, items@, cur));
                        assert(repeat_breaks::<I, T>(cur, ctx, "Repeat"@, err@));
                    }
                    return Err(err);
                }
                let ghost prev = items@;
                let ghost prev_mids = mids;
                items.push(item);
                proof {
                    mids = mids.push(remaining);
                    assert forall|i: int| 0 <= i < items@.len() implies #[trigger] T::parse_rel(
                        mids[i],
                        ctx,
                        Ok((items@[i], mids[i + 1])),
                    ) && mids[i + 1].spec_len() < mids[i].spec_len() by {
                        if i < prev.len() {
                            assert(items@[i] == prev[i]);
                            assert(mids[i] == prev_mids[i]);
                            assert(mids[i + 1] == prev_mids[i + 1]);
                        }
                    }
                }
                cur = remaining;
            },
            Err(e) => {
                assert(T::parse_rel(cur, ctx, Err(e@)));
                if e.is_fatal() {
                    proof {
                        assert(repeat_steps::<I, T>(input, ctx, items@, cur));
                        assert(repeat_breaks::<I, T>(cur, ctx, "Repeat"@, e@));
                    }
                    return Err(e);
                }
                stopped = true;
            },
        }
    }
    assert(repeat_steps::<I, T>(input, ctx, items@, cur));
    if items.len() < min {
        let mut m = String::new();
        m.append("expected at least ");
        let a = decimal_string(min);
        m.append(a.as_str());
        m.append(" items, found ");
        let b = decimal_string(items.len());
        m.append(b.as_str());
        proof {
            reveal_strlit("expected at least ");
            reveal_strlit(" items, found ");
            assert(m@ =~= too_few_message(min, items@.len()));
        }
        return Err(ParseError::custom_owned(m));
    }
    Ok((items, cur))
}

impl<'a, I: ParseOffsetInput<'a>, T: Parse<'a, I>, const MIN: usize, const MAX: usize> Parse<'a, I> for Repeat<
    T,
    MIN,
    MAX,
> {
    /// Between `MIN` and `MAX` items; see [`bounded_rel`].
    open spec fn parse_rel(input: I, ctx: ContextModel, out: Result<(Repeat<T, MIN, MAX>, I), ErrorModel>) -> bool {
        match out {
            Err(e) => bounded_rel::<I, T>(input, ctx, MIN, MAX, Err(e)),
            Ok(p) => bounded_rel::<I, T>(input, ctx, MIN, MAX, Ok((p.0.spec_items(), p.1))),
        }
    }

    fn parse_with_context(input: I, context: &mut ParseOffsetContext) -> (r: ParseResult<
        (Repeat<T, MIN, MAX>, I),
    >) {
        let (items, rest) = parse_bounded::<I, T>(input, context, MIN, MAX)?;
        Ok((Repeat { items }, rest))
    }
}

/// Items of `T` up to where `U` matches; `U` is not consumed.
#[derive(Debug, PartialEq, Eq, Hash)]
pub struct RepeatUntil<T, U> {
    items: Vec<T>,
    _marker: PhantomData<U>,
}

impl<T, U> RepeatUntil<T, U> {
    /// The items.
    pub closed spec fn spec_items(self) -> Seq<T> {
        self.items@
    }

    /// The items.
    pub fn items(&self) -> (r: &[T])
        ensures
            r@ == self.spec_items(),
    {
        self.items.as_slice()
    }

    /// The items, by value.
    pub fn into_items(self) -> (r: Vec<T>)
        ensures
            r@ == self.spec_items(),
    {
        self.items
    }

    /// The number of items.
    pub fn len(&self) -> (r: usize)
        ensures
            r == self.spec_items().len(),
    {
        self.items.len()
    }

    /// Whether there are no items.
    pub fn is_empty(&self) -> (r: bool)
        ensures
            r == (self.spec_items().len() == 0),
    {
        self.items.len() == 0
    }
}

/// Whether `U` succeeds at `at`.
pub open spec fn matches_at<'a, I: ParseOffsetInput<'a>, U: Parse<'a, I>>(at: I, ctx: ContextModel) -> bool {
    exists|u: U, r: I| #[trigger] U::parse_rel(at, ctx, Ok((u, r)))
}

/// Whether `U` fails softly before each item of a chain.
pub open spec fn until_chain<'a, I: ParseOffsetInput<'a>, T: Parse<'a, I>, U: Parse<'a, I>>(
    ctx: ContextModel,
    items: Seq<T>,
    mids: Seq<I>,
) -> bool {
    &&& repeat_chain::<I, T>(ctx, items, mids)
    &&& forall|i: int| 0 <= i < items.len() ==> #[trigger] fails_softly::<I, U>(mids[i], ctx)
}

/// Whether items of `T` lead from `input` to `at` with `U` failing softly before each.
pub open spec fn until_steps<'a, I: ParseOffsetInput<'a>, T: Parse<'a, I>, U: Parse<'a, I>>(
    input: I,
    ctx: ContextModel,
    items: Seq<T>,
    at: I,
) -> bool {
    exists|mids: Seq<I>|
        #[trigger] until_chain::<I, T, U>(ctx, items, mids) && mids[0] == input && mids.last() == at
}

/// Whether repeating `T` until `U` fails at `at` with `e`: `U` fails fatally there, or `U`
/// fails softly and `T` then fails or consumes nothing.
pub open spec fn until_breaks<'a, I: ParseOffsetInput<'a>, T: Parse<'a, I>, U: Parse<'a, I>>(
    at: I,
    ctx: ContextModel,
    e: ErrorModel,
) -> bool {
    ||| U::parse_rel(at, ctx, Err(e)) && e.is_fatal()
    ||| fails_softly::<I, U>(at, ctx) && T::parse_rel(at, ctx, Err(e))
    ||| fails_softly::<I, U>(at, ctx) && e == no_progress_error("RepeatUntil"@) && exists|v: T, r: I|
        #[trigger] T::parse_rel(at, ctx, Ok((v, r))) && r.spec_len() >= at.spec_len()
}

impl<'a, I: ParseOffsetInput<'a>, T: Parse<'a, I>, U: Parse<'a, I>> Parse<'a, I> for RepeatUntil<T, U> {
    /// Items of `T` while `U` fails softly, ending where `U` succeeds; any error of `T` is
    /// passed on.
    open spec fn parse_rel(input: I, ctx: ContextModel, out: Result<(RepeatUntil<T, U>, I), ErrorModel>) -> bool {
        match out {
            Err(e) => exists|items: Seq<T>, at: I|
                #[trigger] until_steps::<I, T, U>(input, ctx, items, at) && until_breaks::<I, T, U>(
                    at,
                    ctx,
                    e,
                ),
            Ok(p) => until_steps::<I, T, U>(input, ctx, p.0.spec_items(), p.1) && matches_at::<I, U>(
                p.1,
                ctx,
            ),
        }
    }

    fn parse_with_context(input: I, context: &mut ParseOffsetContext) -> (r: ParseResult<
        (RepeatUntil<T, U>, I),
    >) {
        let ghost ctx = context@;
        let mut items: Vec<T> = Vec::new();
        let mut cur = input;
        let ghost mut mids: Seq<I> = seq![input];
        loop
            invariant
                context@ == ctx,
                ctx == old(context)@,
                until_chain::<I, T, U>(ctx, items@, mids),
                mids[0] == input,
                mids.last() == cur,
            decreases cur.spec_len(),
        {
            match U::parse_with_context(cur, context) {
                Ok((u, r)) => {
                    assert(U::parse_rel(cur, ctx, Ok((u, r))));
                    assert(until_steps::<I, T, U>(input, ctx, items@, cur));
                    return Ok((RepeatUntil { items, _marker: PhantomData }, cur));
                },
                Err(e) => {
                    assert(U::parse_rel(cur, ctx, Err(e@)));
                    if e.is_fatal() {
                        assert(until_steps::<I, T, U>(input, ctx, items@, cur));
                        assert(until_breaks::<I, T, U>(cur, ctx, e@));
                        return Err(e);
                    }
                },
            }
            assert(fails_softly::<I, U>(cur, ctx));
            match T::parse_with_context(cur, context) {
                Ok((item, remaining)) => {
                    assert(T::parse_rel(cur, ctx, Ok((item, remaining))));
                    if remaining.input_len() >= cur.input_len() {
                        let err = no_progress("RepeatUntil");
                        assert(until_steps::<I, T, U>(input, ctx, items@, cur));
                        assert(until_breaks::<I, T, U>(cur, ctx, err@));
                        return Err(err);
                    }
                    let ghost prev = items@;
                    let ghost prev_mids = mids;
                    items.push(item);
                    proof {
                        mids = mids.push(remaining);
                        assert forall|i: int| 0 <= i < items@.len() implies #[trigger] T::parse_rel(
                            mids[i],
                            ctx,
                            Ok((items@[i], mids[i + 1])),
                        ) && mids[i + 1].spec_len() < mids[i].spec_len() by {
                            if i < prev.len() {
                                assert(items@[i] == prev[i]);
                                assert(mids[i] == prev_mids[i]);
                                assert(mids[i + 1] == prev_mids[i + 1]);
                            }
                        }
                        assert forall|i: int| 0 <= i < items@.len() implies #[trigger] fails_softly::<
                            I,
                            U,
                        >(mids[i], ctx) by {
                            if i < prev.len() {
                                assert(mids[i] == prev_mids[i]);
                            }
                        }
                    }
                    cur = remaining;
                },
                Err(e) => {
                    assert(T::parse_rel(cur, ctx, Err(e@)));
                    assert(until_steps::<I, T, U>(input, ctx, items@, cur));
                    assert(until_breaks::<I, T, U>(cur, ctx, e@));
                    return Err(e);
                },
            }
        }
    }
}

} // verus!
