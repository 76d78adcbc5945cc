//! `Separated` and `Separated0`: items with separators between them.
use std::marker::PhantomData;
use vstd::prelude::*;

use crate::combinators::or::Or;
use crate::error::{
    preview_input, spec_preview, ErrorModel, ParseError, ParseResult, DEFAULT_INPUT_PREVIEW,
};
use crate::input::Input;
use crate::literals::Comma;
use crate::parse::offset::{ContextModel, ParseOffsetContext, ParseOffsetInput};
use crate::parse::traits::{fails_softly, no_progress, no_progress_error};
use crate::parse::Parse;

verus! {

/// Whether `items` and `seps` alternate from `input`: item `i` is parsed from `item_at[i]`
/// and ends at `sep_at[i]`; separator `i` is parsed from `sep_at[i]` and ends at
/// `item_at[i + 1]`; each one consumes something.
pub open spec fn sep_chain<'a, I: ParseOffsetInput<'a>, T: Parse<'a, I>, S: Parse<'a, I>>(
    ctx: ContextModel,
    items: Seq<T>,
    seps: Seq<S>,
    item_at: Seq<I>,
    sep_at: Seq<I>,
) -> bool {
    &&& item_at.len() == seps.len() + 1
    &&& sep_at.len() == items.len()
    &&& (seps.len() == items.len() || seps.len() + 1 == items.len())
    &&& forall|i: int|
        0 <= i < items.len() ==> T::parse_rel(item_at[i], ctx, Ok((#[trigger] items[i], sep_at[i])))
            && sep_at[i].spec_len() < item_at[i].spec_len()
    &&& forall|i: int|
        0 <= i < seps.len() ==> S::parse_rel(sep_at[i], ctx, Ok((#[trigger] seps[i], item_at[i + 1])))
            && item_at[i + 1].spec_len() < sep_at[i].spec_len()
}

/// How scanning separated items ended: `None` when an item failed softly where one was
/// expected, `Some(rest)` when a separator failed softly at `rest`.
pub open spec fn sep_scan_rel<'a, I: ParseOffsetInput<'a>, T: Parse<'a, I>, S: Parse<'a, I>>(
    input: I,
    ctx: ContextModel,
    out: Result<(Seq<T>, Seq<S>, Option<I>), ErrorModel>,
) -> bool {
    match out {
        Ok(p) => sep_scan_ok::<I, T, S>(input, ctx, p.0, p.1, p.2),
        Err(e) => exists|items: Seq<T>, seps: Seq<S>, item_at: Seq<I>, sep_at: Seq<I>|
            #[trigger] sep_chain::<I, T, S>(ctx, items, seps, item_at, sep_at) && item_at[0] == input
                && if seps.len() == items.len() {
                sep_breaks::<I, T>(item_at.last(), ctx, e)
            } else {
                sep_breaks::<I, S>(sep_at.last(), ctx, e)
            },
    }
}

/// Whether scanning from `input` gives `items` and `seps` and ends as `end` says.
pub open spec fn sep_scan_ok<'a, I: ParseOffsetInput<'a>, T: Parse<'a, I>, S: Parse<'a, I>>(
    input: I,
    ctx: ContextModel,
    items: Seq<T>,
    seps: Seq<S>,
    end: Option<I>,
) -> bool {
    exists|item_at: Seq<I>, sep_at: Seq<I>|
        #[trigger] sep_chain::<I, T, S>(ctx, items, seps, item_at, sep_at) && item_at[0] == input
            && match end {
            None => seps.len() == items.len() && fails_softly::<I, T>(item_at.last(), ctx),
            Some(rest) => seps.len() + 1 == items.len() && rest == sep_at.last() && fails_softly::<
                I,
                S,
            >(rest, ctx),
        }
}

/// Whether a scan fails at `at` with `e` while parsing `P`: `P` fails fatally, or succeeds
/// without consuming.
pub open spec fn sep_breaks<'a, I: ParseOffsetInput<'a>, P: Parse<'a, I>>(at: I, ctx: ContextModel, e: ErrorModel) -> bool {
    ||| P::parse_rel(at, ctx, Err(e)) && e.is_fatal()
    ||| e == no_progress_error("SeparatedIter"@) && exists|v: P, r: I|
        #[trigger] P::parse_rel(at, ctx, Ok((v, r))) && r.spec_len() >= at.spec_len()
}

/// The model of a scan's result.
pub open spec fn scan_model<'a, I: ParseOffsetInput<'a>, T, S>(r: ParseResult<(Vec<T>, Vec<S>, Option<I>)>) -> Result<
    (Seq<T>, Seq<S>, Option<I>),
    ErrorModel,
> {
    match r {
        Err(e) => Err(e@),
        Ok(p) => Ok((p.0@, p.1@, p.2)),
    }
}

/// Parses items of `T` separated by `S` from `input`; see [`sep_scan_rel`].
pub fn scan_separated<'a, I: ParseOffsetInput<'a>, T: Parse<'a, I>, S: Parse<'a, I>>(
    input: I,
    context: &mut ParseOffsetContext,
) -> (r: ParseResult<(Vec<T>, Vec<S>, Option<I>)>)
    ensures
        sep_scan_rel::<I, T, S>(input, old(context)@, scan_model(r)),
        final(context)@ == old(context)@,
{
    let ghost ctx = context@;
    let mut items: Vec<T> = Vec::new();
    let mut seps: Vec<S> = Vec::new();
    let mut cur = input;
    let ghost mut item_at: Seq<I> = seq![input];
    let ghost mut sep_at: Seq<I> = seq![];
    loop
        invariant
            context@ == ctx,
            ctx == old(context)@,
            sep_chain::<I, T, S>(ctx, items@, seps@, item_at, sep_at),
            item_at[0] == input,
            seps@.len() == items@.len(),
            cur == item_at.last(),
        decreases cur.spec_len(),
    {
        match T::parse_with_context(cur, context) {
            Err(e) => {
                assert(T::parse_rel(cur, ctx, Err(e@)));
                assert(sep_chain::<I, T, S>(ctx, items@, seps@, item_at, sep_at));
                if e.is_fatal() {
                    assert(sep_breaks::<I, T>(cur, ctx, e@));
                    return Err(e);
                }
                assert(sep_scan_ok::<I, T, S>(input, ctx, items@, seps@, None));
                return Ok((items, seps, None));
            },
            Ok((item, after_item)) => {
                assert(T::parse_rel(cur, ctx, Ok((item, after_item))));
                if after_item.input_len() >= cur.input_len() {
                    let err = no_progress("SeparatedIter");
                    assert(sep_chain::<I, T, S>(ctx, items@, seps@, item_at, sep_at));
                    assert(sep_breaks::<I, T>(cur, ctx, err@));
                    return Err(err);
                }
                let ghost prev_items = items@;
                items.push(item);
                proof {
                    sep_at = sep_at.push(after_item);
                    assert forall|i: int| 0 <= i < items@.len() implies T::parse_rel(
                        item_at[i],
                        ctx,
                        Ok((#[trigger] items@[i], sep_at[i])),
                    ) && sep_at[i].spec_len() < item_at[i].spec_len() by {
                        if i < prev_items.len() {
                            assert(items@[i] == prev_items[i]);
                        }
                    }
                    assert(sep_chain::<I, T, S>(ctx, items@, seps@, item_at, sep_at));
                }
                match S::parse_with_context(after_item, context) {
                    Err(e) => {
                        assert(S::parse_rel(after_item, ctx, Err(e@)));
                        if e.is_fatal() {
                            assert(sep_breaks::<I, S>(after_item, ctx, e@));
                            return Err(e);
                        }
                        assert(sep_scan_ok::<I, T, S>(input, ctx, items@, seps@, Some(after_item)));
                        return Ok((items, seps, Some(after_item)));
                    },
                    Ok((sep, after_sep)) => {
                        assert(S::parse_rel(after_item, ctx, Ok((sep, after_sep))));
                        if after_sep.input_len() >= after_item.input_len() {
                            let err = no_progress("SeparatedIter");
                            assert(sep_breaks::<I, S>(after_item, ctx, err@));
                            return Err(err);
                        }
                        let ghost prev_seps = seps@;
                        let ghost prev_item_at = item_at;
                        seps.push(sep);
                        proof {
                            item_at = item_at.push(after_sep);
                            assert forall|i: int| 0 <= i < items@.len() implies T::parse_rel(
                                item_at[i],
                                ctx,
                                Ok((#[trigger] items@[i], sep_at[i])),
                            ) && sep_at[i].spec_len() < item_at[i].spec_len() by {
                                assert(item_at[i] == prev_item_at[i]);
                            }
                            assert forall|i: int| 0 <= i < seps@.len() implies S::parse_rel(
                                sep_at[i],
                                ctx,
                                Ok((#[trigger] seps@[i], item_at[i + 1])),
                            ) && item_at[i + 1].spec_len() < sep_at[i].spec_len() by {
                                if i < prev_seps.len() {
                                    assert(seps@[i] == prev_seps[i]);
                                    assert(item_at[i + 1] == prev_item_at[i + 1]);
                                }
                            }
                        }
                        cur = after_sep;
                    },
                }
            },
        }
    }
}

/// Where a [`SeparatedIter`] stands: before the first item, before an item, before a
/// separator, or finished.
#[derive(Debug, Clone, Copy, PartialEq, Eq)]
pub enum SeparatedIterState {
    First,
    Item,
    Separator,
    Done,
}

/// Items of `T` and separators of `S` in turn, one part per step.
#[derive(Debug)]
pub struct SeparatedIter<'c, I, T, S> {
    pub input: I,
    pub context: &'c mut ParseOffsetContext,
    pub state: SeparatedIterState,
    pub _marker: PhantomData<(T, S)>,
}

/// What one step of parsing `P` at `at` gives: the part and the rest when `P` consumes
/// something, the no-progress error when it consumes nothing, its error when that is fatal,
/// and `Err(None)` on a soft failure.
pub open spec fn part_rel<'a, I: ParseOffsetInput<'a>, P: Parse<'a, I>>(
    at: I,
    ctx: ContextModel,
    out: Result<(P, I), Option<ErrorModel>>,
) -> bool {
    match out {
        Err(None) => fails_softly::<I, P>(at, ctx),
        Err(Some(e)) => sep_breaks::<I, P>(at, ctx, e),
        Ok((v, r)) => P::parse_rel(at, ctx, Ok((v, r))) && r.spec_len() < at.spec_len(),
    }
}

/// Parses one part `P` at `at`; see [`part_rel`].
fn parse_part<'a, I: ParseOffsetInput<'a>, P: Parse<'a, I>>(at: I, context: &mut ParseOffsetContext) -> (r:
    Result<(P, I), Option<ParseError>>)
    ensures
        part_rel::<I, P>(
            at,
            old(context)@,
            match r {
                Err(None) => Err(None),
                Err(Some(e)) => Err(Some(e@)),
                Ok(p) => Ok(p),
            },
        ),
        final(context)@ == old(context)@,
{
    let ghost ctx = context@;
    match P::parse_with_context(at, context) {
        Ok((v, rest)) => {
            assert(P::parse_rel(at, ctx, Ok((v, rest))));
            if rest.input_len() >= at.input_len() {
                let err = no_progress("SeparatedIter");
                assert(sep_breaks::<I, P>(at, ctx, err@));
                return Err(Some(err));
            }
            Ok((v, rest))
        },
        Err(e) => {
            assert(P::parse_rel(at, ctx, Err(e@)));
            if e.is_fatal() {
                Err(Some(e))
            } else {
                Err(None)
            }
        },
    }
}

impl<'c, I, T, S> SeparatedIter<'c, I, T, S> {
    /// Starts before the first item of `input`.
    pub fn new(input: I, context: &'c mut ParseOffsetContext) -> (r: Self)
        ensures
            r.input == input,
            r.state == SeparatedIterState::First,
            (*r.context)@ == old(context)@,
            (*final(r.context))@ == (*final(context))@,
    {
        SeparatedIter { input, context, state: SeparatedIterState::First, _marker: PhantomData }
    }
}

impl<'c, 'a, I: ParseOffsetInput<'a>, T: Parse<'a, I>, S: Parse<'a, I>> SeparatedIter<'c, I, T, S> {
    /// The next part: an item (`Left(Left(_))`) where one is due, a separator
    /// (`Left(Right(_))`) after an item, or, when no separator follows an item, the input there
    /// (`Right(_)`) once; `None` when an item fails softly or the iteration is finished.
    pub fn next_part(&mut self) -> (r: Option<ParseResult<Or<Or<T, S>, I>>>)
        ensures
            (*final(self).context)@ == (*old(self).context)@,
            match old(self).state {
                SeparatedIterState::Done => r is None && *final(self) == *old(self),
                SeparatedIterState::First | SeparatedIterState::Item => match r {
                    None => fails_softly::<I, T>(old(self).input, (*old(self).context)@)
                        && final(self).input == old(self).input && final(self).state
                        == old(self).state,
                    Some(Err(e)) => sep_breaks::<I, T>(old(self).input, (*old(self).context)@, e@)
                        && final(self).input == old(self).input,
                    Some(Ok(Or::Left(Or::Left(item)))) => T::parse_rel(
                        old(self).input,
                        (*old(self).context)@,
                        Ok((item, final(self).input)),
                    ) && final(self).input.spec_len() < old(self).input.spec_len() && final(self).state
                        == SeparatedIterState::Separator,
                    Some(Ok(_)) => false,
                },
                SeparatedIterState::Separator => match r {
                    None => false,
                    Some(Err(e)) => sep_breaks::<I, S>(old(self).input, (*old(self).context)@, e@)
                        && final(self).input == old(self).input,
                    Some(Ok(Or::Left(Or::Right(sep)))) => S::parse_rel(
                        old(self).input,
                        (*old(self).context)@,
                        Ok((sep, final(self).input)),
                    ) && final(self).input.spec_len() < old(self).input.spec_len() && final(self).state
                        == SeparatedIterState::Item,
                    Some(Ok(Or::Right(at))) => at == old(self).input && fails_softly::<I, S>(
                        at,
                        (*old(self).context)@,
                    ) && final(self).state == SeparatedIterState::Done && final(self).input
                        == old(self).input,
                    Some(Ok(_)) => false,
                },
            },
    {
        match self.state {
            SeparatedIterState::Done => None,
            SeparatedIterState::First | SeparatedIterState::Item => {
                match parse_part::<I, T>(self.input, self.context) {
                    Ok((item, rest)) => {
                        self.input = rest;
                        self.state = SeparatedIterState::Separator;
                        Some(Ok(Or::Left(Or::Left(item))))
                    },
                    Err(Some(e)) => Some(Err(e)),
                    Err(None) => None,
                }
            },
            SeparatedIterState::Separator => {
                match parse_part::<I, S>(self.input, self.context) {
                    Ok((sep, rest)) => {
                        self.input = rest;
                        self.state = SeparatedIterState::Item;
                        Some(Ok(Or::Left(Or::Right(sep))))
                    },
                    Err(Some(e)) => Some(Err(e)),
                    Err(None) => {
                        self.state = SeparatedIterState::Done;
                        Some(Ok(Or::Right(self.input)))
                    },
                }
            },
        }
    }
}

/// One or more items of `T` separated by `S`.
#[derive(Debug, Clone, PartialEq, Eq)]
pub struct Separated<T, S> {
    pub items: Vec<T>,
    pub separators: Vec<S>,
}

/// Items separated by commas.
pub type CommaSeparated<T> = Separated<T, Comma>;

impl<T, S> Separated<T, S> {
    /// The items and separators.
    pub fn new(items: Vec<T>, separators: Vec<S>) -> (r: Self)
        ensures
            r.items@ == items@,
            r.separators@ == separators@,
    {
        Separated { items, separators }
    }

    /// The items.
    pub fn items(&self) -> (r: &[T])
        ensures
            r@ == self.items@,
    {
        self.items.as_slice()
    }

    /// The separators.
    pub fn separators(&self) -> (r: &[S])
        ensures
            r@ == self.separators@,
    {
        self.separators.as_slice()
    }

    /// The items, by value.
    pub fn into_items(self) -> (r: Vec<T>)
        ensures
            r@ == self.items@,
    {
        self.items
    }

    /// The separators, by value.
    pub fn into_separators(self) -> (r: Vec<S>)
        ensures
            r@ == self.separators@,
    {
        self.separators
    }

    /// The items and separators, by value.
    pub fn into_parts(self) -> (r: (Vec<T>, Vec<S>))
        ensures
            r.0@ == self.items@,
            r.1@ == self.separators@,
    {
        (self.items, self.separators)
    }
}

/// The error of a separated list that ends with a separator, or has no item.
pub open spec fn dangling_separator<'a, I: ParseOffsetInput<'a>>(input: I) -> ErrorModel {
    ErrorModel::Custom(
        "expected an item but found a separator at '"@ + spec_preview(
            input.spec_display(),
            DEFAULT_INPUT_PREVIEW as nat,
        ) + "'"@,
    )
}

impl<'a, I: ParseOffsetInput<'a>, T: Parse<'a, I>, S: Parse<'a, I>> Parse<'a, I> for Separated<T, S> {
    /// Items separated by separators, ending after an item; a list that ends where an item
    /// was expected is an error.
    open spec fn parse_rel(input: I, ctx: ContextModel, out: Result<(Separated<T, S>, I), ErrorModel>) -> bool {
        match out {
            Err(e) => sep_scan_rel::<I, T, S>(input, ctx, Err(e)) || exists|items: Seq<T>, seps: Seq<S>|
                #[trigger] sep_scan_rel::<I, T, S>(input, ctx, Ok((items, seps, None))) && e
                    == dangling_separator(input),
            Ok(p) => sep_scan_rel::<I, T, S>(input, ctx, Ok((p.0.items@, p.0.separators@, Some(p.1)))),
        }
    }

    fn parse_with_context(input: I, context: &mut ParseOffsetContext) -> (r: ParseResult<
        (Separated<T, S>, I),
    >) {
        let ghost ctx = context@;
        let (items, separators, end) = scan_separated::<I, T, S>(input, context)?;
        match end {
            Some(rest) => Ok((Separated { items, separators }, rest)),
            None => {
                assert(sep_scan_rel::<I, T, S>(input, ctx, Ok((items@, separators@, None))));
                let shown = input.display();
                let preview = preview_input(shown.as_str(), DEFAULT_INPUT_PREVIEW);
                let mut m = String::new();
                m.append("expected an item but found a separator at '");
                m.append(preview.as_str());
                m.append("'");
                proof {
                    reveal_strlit("expected an item but found a separator at '");
                    reveal_strlit("'");
                    assert(m@ =~= "expected an item but found a separator at '"@ + spec_preview(
                        input.spec_display(),
                        DEFAULT_INPUT_PREVIEW as nat,
                    ) + "'"@);
                }
                Err(ParseError::custom_owned(m))
            },
        }
    }
}

/// Zero or more items of `T` separated by `S`.
#[derive(Debug, Clone, PartialEq, Eq)]
pub struct Separated0<T, S> {
    pub items: Vec<T>,
    pub separators: Vec<S>,
}

/// Zero or more items separated by commas.
pub type CommaSeparated0<T> = Separated0<T, Comma>;

impl<T, S> Separated0<T, S> {
    /// The items and separators.
    pub fn new(items: Vec<T>, separators: Vec<S>) -> (r: Self)
        ensures
            r.items@ == items@,
            r.separators@ == separators@,
    {
        Separated0 { items, separators }
    }

    /// The items.
    pub fn items(&self) -> (r: &[T])
        ensures
            r@ == self.items@,
    {
        self.items.as_slice()
    }

    /// The separators.
    pub fn separators(&self) -> (r: &[S])
        ensures
            r@ == self.separators@,
    {
        self.separators.as_slice()
    }

    /// The items, by value.
    pub fn into_items(self) -> (r: Vec<T>)
        ensures
            r@ == self.items@,
    {
        self.items
    }

    /// The separators, by value.
    pub fn into_separators(self) -> (r: Vec<S>)
        ensures
            r@ == self.separators@,
    {
        self.separators
    }

    /// The items and separators, by value.
    pub fn into_parts(self) -> (r: (Vec<T>, Vec<S>))
        ensures
            r.0@ == self.items@,
            r.1@ == self.separators@,
    {
        (self.items, self.separators)
    }
}

impl<'a, I: ParseOffsetInput<'a>, T: Parse<'a, I>, S: Parse<'a, I>> Parse<'a, I> for Separated0<T, S> {
    /// Items separated by separators; when the scan ends where an item was expected, the
    /// items so far with the rest of the input being the input itself.
    open spec fn parse_rel(input: I, ctx: ContextModel, out: Result<(Separated0<T, S>, I), ErrorModel>) -> bool {
        match out {
            Err(e) => sep_scan_rel::<I, T, S>(input, ctx, Err(e)),
            Ok(p) => sep_scan_rel::<I, T, S>(input, ctx, Ok((p.0.items@, p.0.separators@, Some(p.1))))
                || (p.1 == input && sep_scan_rel::<I, T, S>(
                input,
                ctx,
                Ok((p.0.items@, p.0.separators@, None)),
            )),
        }
    }

    fn parse_with_context(input: I, context: &mut ParseOffsetContext) -> (r: ParseResult<
        (Separated0<T, S>, I),
    >) {
        let (items, separators, end) = scan_separated::<I, T, S>(input, context)?;
        match end {
            Some(rest) => Ok((Separated0 { items, separators }, rest)),
            None => Ok((Separated0 { items, separators }, input)),
        }
    }
}

} // verus!
