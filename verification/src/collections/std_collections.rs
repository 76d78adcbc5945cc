//! Repetition into the standard collections: `VecDeque` keeps the order of the items,
//! `HashSet` and `BTreeSet` keep each distinct item once.
use std::collections::{BTreeSet, HashSet, VecDeque};
use std::hash::Hash;
use vstd::laws_cmp::obeys_cmp;
use vstd::prelude::*;
use vstd::std_specs::hash::obeys_key_model;

use crate::error::{ErrorModel, ParseResult};
use crate::parse::offset::{ContextModel, ParseOffsetContext, ParseOffsetInput};
use crate::parse::traits::repeat_rel;
use crate::parse::Parse;

verus! {

/// Whether repeating `T` from `input` gives `items` and leaves `rest`.
pub open spec fn repeats_into<'a, I: ParseOffsetInput<'a>, T: Parse<'a, I>>(
    input: I,
    ctx: ContextModel,
    items: Seq<T>,
    rest: I,
) -> bool {
    repeat_rel::<I, T>(input, ctx, "Many0"@, Ok((items, rest)))
}

impl<'a, I: ParseOffsetInput<'a>, T: Parse<'a, I>> Parse<'a, I> for VecDeque<T> {
    /// The values of repeated parses of `T`, in order, up to the first soft failure; see
    /// [`repeat_rel`].
    open spec fn parse_rel(input: I, ctx: ContextModel, out: Result<(VecDeque<T>, I), ErrorModel>) -> bool {
        match out {
            Ok((d, rest)) => repeats_into::<I, T>(input, ctx, d@, rest),
            Err(e) => repeat_rel::<I, T>(input, ctx, "Many0"@, Err(e)),
        }
    }

    fn parse_with_context(input: I, context: &mut ParseOffsetContext) -> (r: ParseResult<
        (VecDeque<T>, I),
    >) {
        let ghost ctx = context@;
        let (mut items, rest) = match Vec::<T>::parse_with_context(input, context) {
            Ok(p) => p,
            Err(e) => return Err(e),
        };
        let ghost all = items@;
        let mut out: VecDeque<T> = VecDeque::new();
        while items.len() > 0
            invariant
                items@ + out@ == all,
            decreases items@.len(),
        {
            let ghost before = items@;
            let ghost out_before = out@;
            let x = items.pop().unwrap();
            assert(before =~= items@.push(x));
            out.push_front(x);
            assert(out@ =~= seq![x] + out_before);
            assert(items@ + out@ =~= before + out_before);
        }
        assert(out@ =~= all);
        Ok((out, rest))
    }
}

/// Whether repeating `T` from `input` gives items and leaves `rest`, where, when `exact`,
/// `set` holds exactly those items.
#[verifier::opaque]
pub open spec fn repeats_to_set<'a, I: ParseOffsetInput<'a>, T: Parse<'a, I>>(
    input: I,
    ctx: ContextModel,
    set: Set<T>,
    rest: I,
    exact: bool,
) -> bool {
    exists|items: Seq<T>|
        #[trigger] repeat_rel::<I, T>(input, ctx, "Many0"@, Ok((items, rest))) && (exact ==> set
            == items.to_set())
}

/// Whether `T`'s ordering obeys the laws that `BTreeSet` relies on.
pub open spec fn ordered_keys<T: Ord>() -> bool {
    obeys_cmp::<T>()
}

/// Adding `x` to the set of `s` gives the set of `s` with `x` in front.
proof fn lemma_to_set_push_front<T>(x: T, s: Seq<T>)
    ensures
        (seq![x] + s).to_set() == s.to_set().insert(x),
{
    let t = seq![x] + s;
    assert forall|y: T| #[trigger] t.to_set().contains(y) <==> s.to_set().insert(x).contains(y) by {
        if t.to_set().contains(y) {
            let i = choose|i: int| 0 <= i < t.len() && t[i] == y;
            if i > 0 {
                assert(s[i - 1] == y);
            }
        }
        if s.to_set().contains(y) {
            let i = choose|i: int| 0 <= i < s.len() && s[i] == y;
            assert(t[i + 1] == y);
        }
        if y == x {
            assert(t[0] == y);
        }
    }
    assert(t.to_set() =~= s.to_set().insert(x));
}

impl<'a, I: ParseOffsetInput<'a>, T: Parse<'a, I> + Hash + Eq> Parse<'a, I> for HashSet<T> {
    /// The set of the values of repeated parses of `T`, up to the first soft failure; see
    /// [`repeat_rel`] and [`repeats_to_set`]. The set is stated for item types that obey the
    /// hash-table key model.
    open spec fn parse_rel(input: I, ctx: ContextModel, out: Result<(HashSet<T>, I), ErrorModel>) -> bool {
        match out {
            Ok((set, rest)) => repeats_to_set::<I, T>(input, ctx, set@, rest, obeys_key_model::<T>()),
            Err(e) => repeat_rel::<I, T>(input, ctx, "Many0"@, Err(e)),
        }
    }

    fn parse_with_context(input: I, context: &mut ParseOffsetContext) -> (r: ParseResult<
        (HashSet<T>, I),
    >) {
        broadcast use vstd::std_specs::hash::axiom_random_state_builds_valid_hashers;

        let ghost ctx = context@;
        let (mut items, rest) = match Vec::<T>::parse_with_context(input, context) {
            Ok(p) => p,
            Err(e) => return Err(e),
        };
        let ghost all = items@;
        let mut out: HashSet<T> = HashSet::new();
        let ghost mut taken: Seq<T> = Seq::empty();
        while items.len() > 0
            invariant
                items@ + taken == all,
                vstd::std_specs::hash::builds_valid_hashers::<std::hash::RandomState>(),
                obeys_key_model::<T>() ==> out@ == taken.to_set(),
            decreases items@.len(),
        {
            let ghost before = items@;
            let x = items.pop().unwrap();
            proof {
                lemma_to_set_push_front(x, taken);
                assert(before =~= items@.push(x));
                assert(items@ + (seq![x] + taken) =~= before + taken);
                taken = seq![x] + taken;
            }
            out.insert(x);
        }
        proof {
            assert(taken =~= all);
            reveal(repeats_to_set);
            assert(repeat_rel::<I, T>(input, ctx, "Many0"@, Ok((all, rest))));
        }
        assert(repeats_to_set::<I, T>(input, ctx, out@, rest, obeys_key_model::<T>()));
        Ok((out, rest))
    }
}

impl<'a, I: ParseOffsetInput<'a>, T: Parse<'a, I> + Ord> Parse<'a, I> for BTreeSet<T> {
    /// The set of the values of repeated parses of `T`, up to the first soft failure; see
    /// [`repeat_rel`] and [`repeats_to_set`]. The set is stated for item types whose ordering
    /// obeys its laws.
    open spec fn parse_rel(input: I, ctx: ContextModel, out: Result<(BTreeSet<T>, I), ErrorModel>) -> bool {
        match out {
            Ok((set, rest)) => repeats_to_set::<I, T>(input, ctx, set@, rest, ordered_keys::<T>()),
            Err(e) => repeat_rel::<I, T>(input, ctx, "Many0"@, Err(e)),
        }
    }

    fn parse_with_context(input: I, context: &mut ParseOffsetContext) -> (r: ParseResult<
        (BTreeSet<T>, I),
    >) {
        let ghost ctx = context@;
        let (mut items, rest) = match Vec::<T>::parse_with_context(input, context) {
            Ok(p) => p,
            Err(e) => return Err(e),
        };
        let ghost all = items@;
        let mut out: BTreeSet<T> = BTreeSet::new();
        let ghost mut taken: Seq<T> = Seq::empty();
        while items.len() > 0
            invariant
                items@ + taken == all,
                ordered_keys::<T>() ==> out@ == taken.to_set(),
            decreases items@.len(),
        {
            let ghost before = items@;
            let x = items.pop().unwrap();
            proof {
                lemma_to_set_push_front(x, taken);
                assert(before =~= items@.push(x));
                assert(items@ + (seq![x] + taken) =~= before + taken);
                taken = seq![x] + taken;
            }
            out.insert(x);
        }
        proof {
            assert(taken =~= all);
            reveal(repeats_to_set);
            assert(repeat_rel::<I, T>(input, ctx, "Many0"@, Ok((all, rest))));
        }
        assert(repeats_to_set::<I, T>(input, ctx, out@, rest, ordered_keys::<T>()));
        Ok((out, rest))
    }
}

} // verus!
