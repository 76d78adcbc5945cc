//! `Many1`: one or more items.
use vstd::prelude::*;

use crate::error::{ErrorModel, ParseResult};
use crate::input::Input;
use crate::parse::offset::{ContextModel, ParseOffsetContext, ParseOffsetInput};
use crate::parse::traits::{ensure_progress, repeat_chain, repeat_from, repeat_rel, vec_model};
use crate::parse::Parse;

verus! {

/// Zero or more items: a `Vec`.
pub type Many0<T> = Vec<T>;

/// One or more items.
#[derive(Debug, PartialEq, Eq, Hash, PartialOrd, Ord)]
pub struct Many1<T> {
    items: Vec<T>,
}

impl<T> Many1<T> {
    #[verifier::type_invariant]
    closed spec fn inv(self) -> bool {
        self.items@.len() > 0
    }

    /// The items.
    pub closed spec fn spec_items(self) -> Seq<T> {
        self.items@
    }

    /// The items.
    pub fn items(&self) -> (r: &[T])
        ensures
            r@ == self.spec_items(),
    {
        self.items.as_slice()
    }

    /// The items, by value.
    pub fn into_items(self) -> (r: Vec<T>)
        ensures
            r@ == self.spec_items(),
    {
        self.items
    }

    /// The number of items, at least one.
    pub fn len(&self) -> (r: usize)
        ensures
            r == self.spec_items().len(),
            r > 0,
    {
        proof {
            use_type_invariant(self);
        }
        self.items.len()
    }

    /// Always false: there is at least one item.
    pub fn is_empty(&self) -> (r: bool)
        ensures
            r == (self.spec_items().len() == 0),
            !r,
    {
        proof {
            use_type_invariant(self);
        }
        self.items.len() == 0
    }

    /// The first item.
    pub fn first(&self) -> (r: &T)
        ensures
            *r == self.spec_items()[0],
    {
        proof {
            use_type_invariant(self);
        }
        &self.items[0]
    }

    /// The last item.
    pub fn last(&self) -> (r: &T)
        ensures
            *r == self.spec_items().last(),
    {
        proof {
            use_type_invariant(self);
        }
        &self.items[self.items.len() - 1]
    }

    /// The items, by value.
    pub fn into_vec(self) -> (r: Vec<T>)
        ensures
            r@ == self.spec_items(),
    {
        self.items
    }
}

impl<'a, I: ParseOffsetInput<'a>, T: Parse<'a, I>> Parse<'a, I> for Many1<T> {
    /// Like `Vec<T>`, but an error of the first item is passed on, so at least one item is
    /// parsed; see [`repeat_rel`].
    open spec fn parse_rel(input: I, ctx: ContextModel, out: Result<(Many1<T>, I), ErrorModel>) -> bool {
        match out {
            Err(e) => T::parse_rel(input, ctx, Err(e)) || repeat_rel::<I, T>(input, ctx, "Many1"@, Err(e)),
            Ok(p) => p.0.spec_items().len() > 0 && repeat_rel::<I, T>(
                input,
                ctx,
                "Many1"@,
                Ok((p.0.spec_items(), p.1)),
            ),
        }
    }

    fn parse_with_context(input: I, context: &mut ParseOffsetContext) -> (r: ParseResult<(Many1<T>, I)>) {
        let ghost ctx = context@;
        let (first, rest) = T::parse_with_context(input, context)?;
        assert(T::parse_rel(input, ctx, Ok((first, rest))));
        if rest.input_len() >= input.input_len() {
            let err = crate::parse::traits::no_progress("Many1");
            proof {
                let mids = seq![input];
                assert(repeat_chain::<I, T>(ctx, Seq::<T>::empty(), mids));
                assert(crate::parse::traits::repeat_steps::<I, T>(input, ctx, Seq::<T>::empty(), input));
                assert(crate::parse::traits::repeat_breaks::<I, T>(input, ctx, "Many1"@, err@));
            }
            return Err(err);
        }
        let mut items: Vec<T> = Vec::new();
        items.push(first);
        proof {
            let mids = seq![input, rest];
            assert(repeat_chain::<I, T>(ctx, items@, mids));
        }
        let result = repeat_from(input, context, "Many1", items, rest);
        match result {
            Ok((all, end)) => Ok((Many1 { items: all }, end)),
            Err(e) => Err(e),
        }
    }
}

} // verus!
