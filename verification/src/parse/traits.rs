//! The `Parse` trait and its implementations for std types.
use std::marker::PhantomData;
use vstd::prelude::*;

use super::offset::{ContextModel, ParseOffsetContext, ParseOffsetInput};
use crate::error::{ErrorModel, ParseError, ParseResult};
use crate::input::{res_model, Input, StrInput};

verus! {

/// A type that can be parsed from an abstract input.
///
/// Each implementation states its meaning by `parse_rel`: `parse_rel(input, ctx, out)` holds
/// when parsing `input` under the offset context `ctx` gives `out` (the value and the rest of
/// the input, or the error). Parsing leaves the context as it found it.
pub trait Parse<'a, I: ParseOffsetInput<'a> = StrInput<'a>>: Sized {
    /// Whether parsing `input` under `ctx` gives `out`. Every implementation in this library
    /// states it; an implementation that does not (one written outside Verus, which cannot
    /// define a spec function) keeps this default, which claims nothing of its results.
    open spec fn parse_rel(input: I, ctx: ContextModel, out: Result<(Self, I), ErrorModel>) -> bool {
        true
    }

    /// Parse a value from the input with a fresh context whose one root is anchored at the
    /// input, so that offsets count from its start.
    ///
    /// Returns the parsed value and the remaining unconsumed input.
    fn parse(input: I) -> (r: ParseResult<(Self, I)>)
        ensures
            Self::parse_rel(input, ContextModel::rooted(input.spec_anchor()), res_model(r)),
    {
        let mut context = ParseOffsetContext::new();
        context.push_root(input);
        assert(context@ == ContextModel::rooted(input.spec_anchor()));
        Self::parse_with_context(input, &mut context)
    }

    /// Parse a value from the input using an explicit offset context.
    fn parse_with_context(input: I, context: &mut ParseOffsetContext) -> (r: ParseResult<
        (Self, I),
    >)
        ensures
            Self::parse_rel(input, old(context)@, res_model(r)),
            final(context)@ == old(context)@,
    ;
}

impl<'a, I: ParseOffsetInput<'a>> Parse<'a, I> for () {
    open spec fn parse_rel(input: I, ctx: ContextModel, out: Result<((), I), ErrorModel>) -> bool {
        out == Ok::<((), I), ErrorModel>(((), input))
    }

    fn parse_with_context(input: I, context: &mut ParseOffsetContext) -> (r: ParseResult<((), I)>) {
        Ok(((), input))
    }
}

impl<'a, I: ParseOffsetInput<'a>, T> Parse<'a, I> for PhantomData<T> {
    open spec fn parse_rel(
        input: I,
        ctx: ContextModel,
        out: Result<(PhantomData<T>, I), ErrorModel>,
    ) -> bool {
        out matches Ok((_, rest)) && rest == input
    }

    fn parse_with_context(input: I, context: &mut ParseOffsetContext) -> (r: ParseResult<
        (PhantomData<T>, I),
    >) {
        Ok((PhantomData, input))
    }
}

/// Whether `T` fails on `input` under `ctx`.
pub open spec fn fails<'a, I: ParseOffsetInput<'a>, T: Parse<'a, I>>(input: I, ctx: ContextModel) -> bool {
    exists|e: ErrorModel| #[trigger] T::parse_rel(input, ctx, Err(e))
}

/// Whether `T` fails on `input` under `ctx` with an error that is not fatal.
pub open spec fn fails_softly<'a, I: ParseOffsetInput<'a>, T: Parse<'a, I>>(input: I, ctx: ContextModel) -> bool {
    exists|e: ErrorModel| #[trigger] T::parse_rel(input, ctx, Err(e)) && !e.is_fatal()
}

impl<'a, I: ParseOffsetInput<'a>, T: Parse<'a, I>> Parse<'a, I> for Option<T> {
    /// `Some` of what `T` gives; `None` with the input untouched when `T` fails softly; a
    /// fatal error of `T` is passed on.
    open spec fn parse_rel(input: I, ctx: ContextModel, out: Result<(Option<T>, I), ErrorModel>) -> bool {
        match out {
            Ok((Some(v), rest)) => T::parse_rel(input, ctx, Ok((v, rest))),
            Ok((None, rest)) => rest == input && fails_softly::<I, T>(input, ctx),
            Err(e) => T::parse_rel(input, ctx, Err(e)) && e.is_fatal(),
        }
    }

    fn parse_with_context(input: I, context: &mut ParseOffsetContext) -> (r: ParseResult<
        (Option<T>, I),
    >) {
        match T::parse_with_context(input, context) {
            Ok((value, remaining)) => Ok((Some(value), remaining)),
            Err(e) => {
                if e.is_fatal() {
                    Err(e)
                } else {
                    assert(T::parse_rel(input, context@, Err(e@)));
                    Ok((None, input))
                }
            },
        }
    }
}

impl<'a, I: ParseOffsetInput<'a>, T: Parse<'a, I>> Parse<'a, I> for Result<T, ParseError> {
    /// `Ok` of what `T` gives, or `Err` of its error with the input untouched; never fails.
    open spec fn parse_rel(
        input: I,
        ctx: ContextModel,
        out: Result<(Result<T, ParseError>, I), ErrorModel>,
    ) -> bool {
        match out {
            Ok((Ok(v), rest)) => T::parse_rel(input, ctx, Ok((v, rest))),
            Ok((Err(e), rest)) => rest == input && T::parse_rel(input, ctx, Err(e@)),
            Err(_) => false,
        }
    }

    fn parse_with_context(input: I, context: &mut ParseOffsetContext) -> (r: ParseResult<
        (Result<T, ParseError>, I),
    >) {
        match T::parse_with_context(input, context) {
            Ok((value, remaining)) => Ok((Ok(value), remaining)),
            Err(e) => Ok((Err(e), input)),
        }
    }
}

/// Whether the points `mids` chain repeated parses of `T` into `items`: the parse from
/// `mids[i]` gives `items[i]` and `mids[i + 1]`, consuming something.
pub open spec fn repeat_chain<'a, I: ParseOffsetInput<'a>, T: Parse<'a, I>>(
    ctx: ContextModel,
    items: Seq<T>,
    mids: Seq<I>,
) -> bool {
    &&& mids.len() == items.len() + 1
    &&& forall|i: int|
        0 <= i < items.len() ==> #[trigger] T::parse_rel(mids[i], ctx, Ok((items[i], mids[i + 1])))
            && mids[i + 1].spec_len() < mids[i].spec_len()
}

/// Whether repeated parses of `T` lead from `input` through `items` to `rest`, each one
/// consuming something.
pub open spec fn repeat_steps<'a, I: ParseOffsetInput<'a>, T: Parse<'a, I>>(
    input: I,
    ctx: ContextModel,
    items: Seq<T>,
    rest: I,
) -> bool {
    exists|mids: Seq<I>|
        #[trigger] repeat_chain::<I, T>(ctx, items, mids) && mids[0] == input && mids.last()
            == rest
}

/// The fatal error for a repetition named `name` whose item parser consumed nothing.
pub open spec fn no_progress_error(name: Seq<char>) -> ErrorModel {
    ErrorModel::Custom("parser `"@ + name + "` made no progress"@).into_fatal()
}

/// The error for a repetition named `name` whose item parser consumed nothing.
pub fn no_progress(name: &'static str) -> (r: ParseError)
    ensures
        r@ == no_progress_error(name@),
{
    let mut message = String::new();
    message.append("parser `");
    message.append(name);
    message.append("` made no progress");
    proof {
        reveal_strlit("parser `");
        reveal_strlit("` made no progress");
    }
    ParseError::custom_owned(message).into_fatal()
}

/// Fails with [`no_progress_error`] when `after` is not shorter than `before`.
pub fn ensure_progress<'a, I: ParseOffsetInput<'a>>(before: I, after: I, name: &'static str) -> (r:
    ParseResult<()>)
    ensures
        r is Ok <==> after.spec_len() < before.spec_len(),
        r matches Err(e) ==> e@ == no_progress_error(name@),
{
    if after.input_len() < before.input_len() {
        Ok(())
    } else {
        Err(no_progress(name))
    }
}

/// Whether a repetition of `T` ends well at `at`: `T` fails there with an error that is not
/// fatal.
pub open spec fn repeat_stops<'a, I: ParseOffsetInput<'a>, T: Parse<'a, I>>(at: I, ctx: ContextModel) -> bool {
    fails_softly::<I, T>(at, ctx)
}

/// Whether a repetition named `name` fails at `at` with `e`: `T` fails there fatally with `e`,
/// or succeeds without consuming anything.
pub open spec fn repeat_breaks<'a, I: ParseOffsetInput<'a>, T: Parse<'a, I>>(
    at: I,
    ctx: ContextModel,
    name: Seq<char>,
    e: ErrorModel,
) -> bool {
    ||| T::parse_rel(at, ctx, Err(e)) && e.is_fatal()
    ||| e == no_progress_error(name) && exists|v: T, r: I|
        #[trigger] T::parse_rel(at, ctx, Ok((v, r))) && r.spec_len() >= at.spec_len()
}

/// What repeating `T` from `input` gives: the items parsed until `T` fails softly, or the
/// error that stopped the repetition.
pub open spec fn repeat_rel<'a, I: ParseOffsetInput<'a>, T: Parse<'a, I>>(
    input: I,
    ctx: ContextModel,
    name: Seq<char>,
    out: Result<(Seq<T>, I), ErrorModel>,
) -> bool {
    match out {
        Ok((items, rest)) => repeat_steps::<I, T>(input, ctx, items, rest) && repeat_stops::<I, T>(
            rest,
            ctx,
        ),
        Err(e) => exists|items: Seq<T>, at: I|
            #[trigger] repeat_steps::<I, T>(input, ctx, items, at) && repeat_breaks::<I, T>(
                at,
                ctx,
                name,
                e,
            ),
    }
}

/// The model of a repetition's result.
pub open spec fn vec_model<'a, I: ParseOffsetInput<'a>, T>(r: ParseResult<(Vec<T>, I)>) -> Result<(Seq<T>, I), ErrorModel> {
    match r {
        Err(e) => Err(e@),
        Ok(p) => Ok((p.0@, p.1)),
    }
}

/// Continues parsing `T` from `cur`, after `items` were parsed from `input`, until `T` fails.
pub fn repeat_from<'a, I: ParseOffsetInput<'a>, T: Parse<'a, I>>(
    input: I,
    context: &mut ParseOffsetContext,
    name: &'static str,
    prefix: Vec<T>,
    cur: I,
) -> (r: ParseResult<(Vec<T>, I)>)
    requires
        repeat_steps::<I, T>(input, old(context)@, prefix@, cur),
    ensures
        repeat_rel::<I, T>(input, old(context)@, name@, vec_model(r)),
        r matches Ok(p) ==> p.0@.len() >= prefix@.len(),
        final(context)@ == old(context)@,
{
    let ghost ctx = context@;
    let ghost start_len = prefix@.len();
    let mut items = prefix;
    let mut cur = cur;
    let ghost mut mids: Seq<I> = choose|mids: Seq<I>|
        #[trigger] repeat_chain::<I, T>(ctx, items@, mids) && mids[0] == input && mids.last() == cur;
    loop
        invariant
            context@ == ctx,
            ctx == old(context)@,
            items@.len() >= start_len,
            start_len == prefix@.len(),
            repeat_chain::<I, T>(ctx, items@, mids),
            mids[0] == input,
            mids.last() == cur,
        decreases cur.spec_len(),
    {
        match T::parse_with_context(cur, context) {
            Ok((item, remaining)) => {
                if remaining.input_len() >= cur.input_len() {
                    let err = no_progress(name);
                    proof {
                        assert(T::parse_rel(cur, ctx, Ok((item, remaining))));
                        assert(repeat_steps::<I, T>(input, ctx, items@, cur));
                        assert(repeat_breaks::<I, T>(cur, ctx, name@, err@));
                        assert(repeat_rel::<I, T>(input, ctx, name@, Err(err@)));
                    }
                    return Err(err);
                }
                let ghost prev = items@;
                let ghost prev_mids = mids;
                assert(T::parse_rel(cur, ctx, Ok((item, remaining))));
                items.push(item);
                proof {
                    mids = mids.push(remaining);
                    assert forall|i: int| 0 <= i < items@.len() implies #[trigger] T::parse_rel(
                        mids[i],
                        ctx,
                        Ok((items@[i], mids[i + 1])),
                    ) && mids[i + 1].spec_len() < mids[i].spec_len() by {
                        if i < prev.len() {
                            assert(items@[i] == prev[i]);
                            assert(mids[i] == prev_mids[i]);
                            assert(mids[i + 1] == prev_mids[i + 1]);
                        }
                    }
                }
                cur = remaining;
            },
            Err(e) => {
                assert(T::parse_rel(cur, ctx, Err(e@)));
                assert(repeat_steps::<I, T>(input, ctx, items@, cur));
                if e.is_fatal() {
                    proof {
                        assert(repeat_breaks::<I, T>(cur, ctx, name@, e@));
                        assert(repeat_rel::<I, T>(input, ctx, name@, Err(e@)));
                    }
                    return Err(e);
                }
                return Ok((items, cur));
            },
        }
    }
}

/// Whether a loose repetition of `T` ends at `at`: `T` fails there in any way, or succeeds
/// without consuming anything.
pub open spec fn loose_stops<'a, I: ParseOffsetInput<'a>, T: Parse<'a, I>>(at: I, ctx: ContextModel) -> bool {
    ||| fails::<I, T>(at, ctx)
    ||| exists|v: T, r: I| #[trigger] T::parse_rel(at, ctx, Ok((v, r))) && r.spec_len() >= at.spec_len()
}

/// Parses `T` from `cur` on, after `prefix` was parsed from `input`, until it fails in any
/// way or stops consuming input; no error is passed on.
pub fn repeat_loose<'a, I: ParseOffsetInput<'a>, T: Parse<'a, I>>(
    input: I,
    context: &mut ParseOffsetContext,
    prefix: Vec<T>,
    cur: I,
) -> (r: (Vec<T>, I))
    requires
        repeat_steps::<I, T>(input, old(context)@, prefix@, cur),
    ensures
        repeat_steps::<I, T>(input, old(context)@, r.0@, r.1),
        loose_stops::<I, T>(r.1, old(context)@),
        r.0@.len() >= prefix@.len(),
        final(context)@ == old(context)@,
{
    let ghost ctx = context@;
    let ghost start_len = prefix@.len();
    let mut items = prefix;
    let mut cur = cur;
    let mut done = false;
    let ghost mut mids: Seq<I> = choose|mids: Seq<I>|
        #[trigger] repeat_chain::<I, T>(ctx, items@, mids) && mids[0] == input && mids.last() == cur;
    while !done
        invariant
            context@ == ctx,
            ctx == old(context)@,
            start_len == prefix@.len(),
            items@.len() >= start_len,
            repeat_chain::<I, T>(ctx, items@, mids),
            mids[0] == input,
            mids.last() == cur,
            done ==> loose_stops::<I, T>(cur, ctx),
        decreases cur.spec_len() + if done { 0int } else { 1int },
    {
        match T::parse_with_context(cur, context) {
            Ok((item, remaining)) => {
                assert(T::parse_rel(cur, ctx, Ok((item, remaining))));
                if remaining.input_len() >= cur.input_len() {
                    done = true;
                } else {
                    let ghost prev = items@;
                    let ghost prev_mids = mids;
                    items.push(item);
                    proof {
                        mids = mids.push(remaining);
                        assert forall|i: int| 0 <= i < items@.len() implies #[trigger] T::parse_rel(
                            mids[i],
                            ctx,
                            Ok((items@[i], mids[i + 1])),
                        ) && mids[i + 1].spec_len() < mids[i].spec_len() by {
                            if i < prev.len() {
                                assert(items@[i] == prev[i]);
                                assert(mids[i] == prev_mids[i]);
                                assert(mids[i + 1] == prev_mids[i + 1]);
                            }
                        }
                    }
                    cur = remaining;
                }
            },
            Err(e) => {
                assert(T::parse_rel(cur, ctx, Err(e@)));
                done = true;
            },
        }
    }
    assert(repeat_steps::<I, T>(input, ctx, items@, cur));
    (items, cur)
}

impl<'a, I: ParseOffsetInput<'a>, T: Parse<'a, I>> Parse<'a, I> for Vec<T> {
    /// The values of repeated parses of `T`, up to the first soft failure; see
    /// [`repeat_rel`].
    open spec fn parse_rel(input: I, ctx: ContextModel, out: Result<(Vec<T>, I), ErrorModel>) -> bool {
        match out {
            Ok((v, rest)) => repeat_rel::<I, T>(input, ctx, "Many0"@, Ok((v@, rest))),
            Err(e) => repeat_rel::<I, T>(input, ctx, "Many0"@, Err(e)),
        }
    }

    fn parse_with_context(input: I, context: &mut ParseOffsetContext) -> (r: ParseResult<
        (Vec<T>, I),
    >) {
        let items: Vec<T> = Vec::new();
        proof {
            let mids = seq![input];
            assert(repeat_chain::<I, T>(context@, items@, mids));
        }
        repeat_from(input, context, "Many0", items, input)
    }
}

/// Whether `A` gives `a` from `input` and then `B` gives `b` and `rest`.
pub open spec fn seq_ok<'a, I: ParseOffsetInput<'a>, A: Parse<'a, I>, B: Parse<'a, I>>(
    input: I,
    ctx: ContextModel,
    a: A,
    b: B,
    rest: I,
) -> bool {
    exists|mid: I|
        #[trigger] A::parse_rel(input, ctx, Ok((a, mid))) && B::parse_rel(mid, ctx, Ok((b, rest)))
}

/// Whether `A` succeeds on `input` and `B` then fails with `e`.
pub open spec fn seq_err<'a, I: ParseOffsetInput<'a>, A: Parse<'a, I>, B: Parse<'a, I>>(
    input: I,
    ctx: ContextModel,
    e: ErrorModel,
) -> bool {
    A::parse_rel(input, ctx, Err(e)) || exists|a: A, mid: I|
        #[trigger] A::parse_rel(input, ctx, Ok((a, mid))) && B::parse_rel(mid, ctx, Err(e))
}

/// Whether `A` then `B` parse `input` into `out`.
pub open spec fn seq_rel<'a, I: ParseOffsetInput<'a>, A: Parse<'a, I>, B: Parse<'a, I>>(
    input: I,
    ctx: ContextModel,
    out: Result<((A, B), I), ErrorModel>,
) -> bool {
    match out {
        Err(e) => seq_err::<I, A, B>(input, ctx, e),
        Ok((v, rest)) => seq_ok::<I, A, B>(input, ctx, v.0, v.1, rest),
    }
}

impl<'a, I: ParseOffsetInput<'a>, A: Parse<'a, I>, B: Parse<'a, I>> Parse<'a, I> for (A, B) {
    /// `A` then `B`, each from where the previous stopped; the first error stops the parse.
    open spec fn parse_rel(input: I, ctx: ContextModel, out: Result<((A, B), I), ErrorModel>) -> bool {
        seq_rel::<I, A, B>(input, ctx, out)
    }

    fn parse_with_context(input: I, context: &mut ParseOffsetContext) -> (r: ParseResult<
        ((A, B), I),
    >) {
        let ghost ctx = context@;
        let (a, mid) = match A::parse_with_context(input, context) {
            Ok(v) => v,
            Err(e) => {
                return Err(e);
            },
        };
        assert(A::parse_rel(input, ctx, Ok((a, mid))));
        match B::parse_with_context(mid, context) {
            Ok((b, rest)) => {
                assert(B::parse_rel(mid, ctx, Ok((b, rest))));
                assert(seq_ok::<I, A, B>(input, ctx, a, b, rest));
                Ok(((a, b), rest))
            },
            Err(e) => {
                assert(B::parse_rel(mid, ctx, Err(e@)));
                Err(e)
            },
        }
    }
}

impl<'a, I: ParseOffsetInput<'a>, A: Parse<'a, I>, B: Parse<'a, I>, C: Parse<'a, I>> Parse<'a, I> for (
    A,
    B,
    C,
) {
    /// `A`, `B` and `C` in turn; the first error stops the parse.
    open spec fn parse_rel(input: I, ctx: ContextModel, out: Result<((A, B, C), I), ErrorModel>) -> bool {
        match out {
            Err(e) => seq_err::<I, (A, B), C>(input, ctx, e),
            Ok((v, rest)) => seq_ok::<I, (A, B), C>(input, ctx, (v.0, v.1), v.2, rest),
        }
    }

    fn parse_with_context(input: I, context: &mut ParseOffsetContext) -> (r: ParseResult<
        ((A, B, C), I),
    >) {
        let ghost ctx = context@;
        let ((a, b), mid) = match <(A, B)>::parse_with_context(input, context) {
            Ok(v) => v,
            Err(e) => {
                return Err(e);
            },
        };
        assert(<(A, B)>::parse_rel(input, ctx, Ok(((a, b), mid))));
        match C::parse_with_context(mid, context) {
            Ok((c, rest)) => {
                assert(C::parse_rel(mid, ctx, Ok((c, rest))));
                assert(seq_ok::<I, (A, B), C>(input, ctx, (a, b), c, rest));
                Ok(((a, b, c), rest))
            },
            Err(e) => {
                assert(C::parse_rel(mid, ctx, Err(e@)));
                Err(e)
            },
        }
    }
}

/// A wrapper for recursive parse results: the parsed value behind a box.
#[derive(Debug, Clone, PartialEq, Eq, Hash, PartialOrd, Ord)]
pub struct Nested<T>(pub Box<T>);

impl<T> Nested<T> {
    /// Wraps `value`.
    pub fn new(value: T) -> (r: Self)
        ensures
            *r.0 == value,
    {
        Nested(Box::new(value))
    }

    /// The wrapped value.
    pub fn into_inner(self) -> (r: T)
        ensures
            r == *self.0,
    {
        *self.0
    }
}

impl<T> std::ops::Deref for Nested<T> {
    type Target = T;

    fn deref(&self) -> (r: &T)
        ensures
            *r == *self.0,
    {
        &self.0
    }
}

impl<'a, I: ParseOffsetInput<'a>, T: Parse<'a, I>> Parse<'a, I> for Nested<T> {
    /// What `T` gives, boxed.
    open spec fn parse_rel(input: I, ctx: ContextModel, out: Result<(Nested<T>, I), ErrorModel>) -> bool {
        match out {
            Ok((n, rest)) => T::parse_rel(input, ctx, Ok((*n.0, rest))),
            Err(e) => T::parse_rel(input, ctx, Err(e)),
        }
    }

    fn parse_with_context(input: I, context: &mut ParseOffsetContext) -> (r: ParseResult<
        (Nested<T>, I),
    >) {
        match T::parse_with_context(input, context) {
            Ok((value, remaining)) => Ok((Nested(Box::new(value)), remaining)),
            Err(e) => Err(e),
        }
    }
}

} // verus!
