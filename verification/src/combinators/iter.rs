//! `PIter`: repeated parses of one parser, one item per step.
use std::marker::PhantomData;
use vstd::prelude::*;

use crate::error::{ErrorModel, ParseResult};
use crate::parse::offset::{ContextModel, ParseOffsetContext, ParseOffsetInput};
use crate::parse::traits::{no_progress, no_progress_error};
use crate::parse::Parse;

verus! {

/// Repeated parses of `T` over an input and a context, one item per step.
#[derive(Debug)]
pub struct PIter<'c, I, T> {
    pub input: I,
    pub context: &'c mut ParseOffsetContext,
    pub name: &'static str,
    pub _marker: PhantomData<T>,
}

/// Starts a repetition of `T` over `input`, named `name` in its errors.
pub fn iter<'c, I, T>(input: I, context: &'c mut ParseOffsetContext, name: &'static str) -> (r:
    PIter<'c, I, T>)
    ensures
        r.input == input,
        r.name == name,
        (*r.context)@ == old(context)@,
        (*final(r.context))@ == (*final(context))@,
{
    PIter { input, context, name, _marker: PhantomData }
}

/// What one step of a repetition named `name` gives at `at`: the item and the rest when `T`
/// consumes something, a fatal error when it consumes nothing, its error when that is fatal,
/// and the end (`None`) on a soft failure.
pub open spec fn step_rel<'a, I: ParseOffsetInput<'a>, T: Parse<'a, I>>(
    at: I,
    ctx: ContextModel,
    name: Seq<char>,
    out: Option<Result<(T, I), ErrorModel>>,
) -> bool {
    match out {
        None => crate::parse::traits::fails_softly::<I, T>(at, ctx),
        Some(Err(e)) => (T::parse_rel(at, ctx, Err(e)) && e.is_fatal()) || (e == no_progress_error(
            name,
        ).into_fatal() && exists|v: T, r: I|
            #[trigger] T::parse_rel(at, ctx, Ok((v, r))) && r.spec_len() >= at.spec_len()),
        Some(Ok((v, r))) => T::parse_rel(at, ctx, Ok((v, r))) && r.spec_len() < at.spec_len(),
    }
}

/// The model of a step's result.
pub open spec fn step_model<'a, I: ParseOffsetInput<'a>, T>(r: Option<ParseResult<(T, I)>>) -> Option<
    Result<(T, I), ErrorModel>,
> {
    match r {
        None => None,
        Some(Err(e)) => Some(Err(e@)),
        Some(Ok(p)) => Some(Ok(p)),
    }
}

impl<'c, 'a, I: ParseOffsetInput<'a>, T: Parse<'a, I>> PIter<'c, I, T> {
    /// Parses the next item; the input moves past it when it is returned.
    pub fn next_item(&mut self) -> (r: Option<ParseResult<(T, I)>>)
        ensures
            step_rel::<I, T>(old(self).input, (*old(self).context)@, old(self).name@, step_model(r)),
            final(self).input == (match r {
                Some(Ok((_, rest))) => rest,
                _ => old(self).input,
            }),
            final(self).name == old(self).name,
            (*final(self).context)@ == (*old(self).context)@,
    {
        let at = self.input;
        let ghost ctx = (*self.context)@;
        match T::parse_with_context(at, self.context) {
            Ok((item, rest)) => {
                assert(T::parse_rel(at, ctx, Ok((item, rest))));
                if rest.input_len() >= at.input_len() {
                    let err = no_progress(self.name).into_fatal();
                    return Some(Err(err));
                }
                self.input = rest;
                Some(Ok((item, rest)))
            },
            Err(e) => {
                if e.is_fatal() {
                    Some(Err(e))
                } else {
                    assert(T::parse_rel(at, ctx, Err(e@)));
                    None
                }
            },
        }
    }
}

} // verus!
