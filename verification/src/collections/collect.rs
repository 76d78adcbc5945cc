//! `Collect`: items gathered until the item parser fails.
use vstd::prelude::*;

use crate::error::{ErrorModel, ParseResult};
use crate::input::Input;
use crate::parse::offset::{ContextModel, ParseOffsetContext, ParseOffsetInput};
use crate::parse::traits::{loose_stops, repeat_chain, repeat_loose, repeat_steps};
use crate::parse::Parse;

verus! {

/// Items of `T` parsed in a row until `T` fails in any way or stops consuming input; no
/// error of `T` is passed on.
#[derive(Debug, PartialEq, Eq, Hash)]
pub struct Collect<T> {
    items: Vec<T>,
}

impl<T> Collect<T> {
    /// The items.
    pub closed spec fn spec_items(self) -> Seq<T> {
        self.items@
    }

    /// The items.
    pub fn items(&self) -> (r: &[T])
        ensures
            r@ == self.spec_items(),
    {
        self.items.as_slice()
    }

    /// The items, by value.
    pub fn into_items(self) -> (r: Vec<T>)
        ensures
            r@ == self.spec_items(),
    {
        self.items
    }
}

impl<'a, I: ParseOffsetInput<'a>, T: Parse<'a, I>> Parse<'a, I> for Collect<T> {
    /// The items of a repetition that ends where `T` fails or consumes nothing.
    open spec fn parse_rel(input: I, ctx: ContextModel, out: Result<(Collect<T>, I), ErrorModel>) -> bool {
        match out {
            Err(_) => false,
            Ok(p) => repeat_steps::<I, T>(input, ctx, p.0.spec_items(), p.1) && loose_stops::<I, T>(
                p.1,
                ctx,
            ),
        }
    }

    fn parse_with_context(input: I, context: &mut ParseOffsetContext) -> (r: ParseResult<(Collect<T>, I)>) {
        let empty: Vec<T> = Vec::new();
        proof {
            assert(repeat_chain::<I, T>(context@, empty@, seq![input]));
        }
        let (items, rest) = repeat_loose(input, context, empty, input);
        Ok((Collect { items }, rest))
    }
}

} // verus!
