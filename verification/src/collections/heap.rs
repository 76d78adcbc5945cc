//! `BinaryHeap`: items kept in order of a key, the largest last.
use vstd::multiset::Multiset;
use vstd::prelude::*;

use crate::error::{ErrorModel, ParseResult};
use crate::parse::offset::{ContextModel, ParseOffsetContext, ParseOffsetInput};
use crate::parse::traits::repeat_rel;
use crate::parse::Parse;

verus! {

broadcast use vstd::seq_lib::group_to_multiset_ensures, vstd::multiset::group_multiset_axioms;

/// Items ordered by an integer key.
pub trait HeapKey: Sized {
    /// The key the item is ordered by.
    spec fn spec_key(&self) -> int;

    /// Whether the key of `self` is at most that of `other`.
    fn key_le(&self, other: &Self) -> (r: bool)
        ensures
            r == (self.spec_key() <= other.spec_key()),
    ;
}

impl HeapKey for i8 {
    open spec fn spec_key(&self) -> int {
        *self as int
    }

    fn key_le(&self, other: &Self) -> (r: bool) {
        *self <= *other
    }
}

impl HeapKey for i16 {
    open spec fn spec_key(&self) -> int {
        *self as int
    }

    fn key_le(&self, other: &Self) -> (r: bool) {
        *self <= *other
    }
}

impl HeapKey for i32 {
    open spec fn spec_key(&self) -> int {
        *self as int
    }

    fn key_le(&self, other: &Self) -> (r: bool) {
        *self <= *other
    }
}

impl HeapKey for i64 {
    open spec fn spec_key(&self) -> int {
        *self as int
    }

    fn key_le(&self, other: &Self) -> (r: bool) {
        *self <= *other
    }
}

impl HeapKey for i128 {
    open spec fn spec_key(&self) -> int {
        *self as int
    }

    fn key_le(&self, other: &Self) -> (r: bool) {
        *self <= *other
    }
}

impl HeapKey for isize {
    open spec fn spec_key(&self) -> int {
        *self as int
    }

    fn key_le(&self, other: &Self) -> (r: bool) {
        *self <= *other
    }
}

impl HeapKey for u8 {
    open spec fn spec_key(&self) -> int {
        *self as int
    }

    fn key_le(&self, other: &Self) -> (r: bool) {
        *self <= *other
    }
}

impl HeapKey for u16 {
    open spec fn spec_key(&self) -> int {
        *self as int
    }

    fn key_le(&self, other: &Self) -> (r: bool) {
        *self <= *other
    }
}

impl HeapKey for u32 {
    open spec fn spec_key(&self) -> int {
        *self as int
    }

    fn key_le(&self, other: &Self) -> (r: bool) {
        *self <= *other
    }
}

impl HeapKey for u64 {
    open spec fn spec_key(&self) -> int {
        *self as int
    }

    fn key_le(&self, other: &Self) -> (r: bool) {
        *self <= *other
    }
}

impl HeapKey for u128 {
    open spec fn spec_key(&self) -> int {
        *self as int
    }

    fn key_le(&self, other: &Self) -> (r: bool) {
        *self <= *other
    }
}

impl HeapKey for usize {
    open spec fn spec_key(&self) -> int {
        *self as int
    }

    fn key_le(&self, other: &Self) -> (r: bool) {
        *self <= *other
    }
}

/// Whether the keys of `s` never decrease.
pub open spec fn sorted_by_key<T: HeapKey>(s: Seq<T>) -> bool {
    forall|i: int, j: int| 0 <= i <= j < s.len() ==> #[trigger] s[i].spec_key() <= #[trigger] s[j].spec_key()
}

/// A priority queue: its items in order of their keys, the largest last.
#[derive(Debug)]
pub struct BinaryHeap<T> {
    items: Vec<T>,
}

impl<T> View for BinaryHeap<T> {
    type V = Seq<T>;

    /// The items, smallest key first.
    closed spec fn view(&self) -> Seq<T> {
        self.items@
    }
}

impl<T: HeapKey> BinaryHeap<T> {
    /// Whether the items are in order of their keys.
    pub open spec fn wf(&self) -> bool {
        sorted_by_key(self@)
    }

    /// An empty heap.
    pub fn new() -> (r: Self)
        ensures
            r@ == Seq::<T>::empty(),
            r.wf(),
    {
        BinaryHeap { items: Vec::new() }
    }

    /// The number of items.
    pub fn len(&self) -> (r: usize)
        ensures
            r == self@.len(),
    {
        self.items.len()
    }

    /// Whether the heap holds no item.
    pub fn is_empty(&self) -> (r: bool)
        ensures
            r == (self@.len() == 0),
    {
        self.items.len() == 0
    }

    /// An item with the largest key, if any.
    pub fn peek(&self) -> (r: Option<&T>)
        requires
            self.wf(),
        ensures
            self@.len() == 0 ==> r is None,
            self@.len() > 0 ==> (r matches Some(x) && *x == self@.last() && forall|i: int|
                0 <= i < self@.len() ==> #[trigger] self@[i].spec_key() <= x.spec_key()),
    {
        let n = self.items.len();
        if n == 0 {
            None
        } else {
            Some(&self.items[n - 1])
        }
    }

    /// Adds `x`, before the first item whose key is larger.
    pub fn push(&mut self, x: T)
        requires
            old(self).wf(),
        ensures
            final(self).wf(),
            final(self)@.to_multiset() == old(self)@.to_multiset().insert(x),
            final(self)@.len() == old(self)@.len() + 1,
    {
        let n = self.items.len();
        let mut p: usize = 0;
        while p < n && self.items[p].key_le(&x)
            invariant
                p <= n,
                n == self.items@.len(),
                self.items@ == old(self).items@,
                forall|i: int| 0 <= i < p ==> #[trigger] self.items@[i].spec_key() <= x.spec_key(),
            decreases n - p,
        {
            p = p + 1;
        }
        let ghost before = self.items@;
        self.items.insert(p, x);
        proof {
            let after = self.items@;
            assert(after.remove(p as int) =~= before);
            assert(after[p as int] == x);
            assert(after.to_multiset() =~= before.to_multiset().insert(x)) by {
                assert(after.remove(p as int).to_multiset() == after.to_multiset().remove(after[p as int]));
            }
            assert forall|i: int, j: int| 0 <= i <= j < after.len() implies #[trigger] after[i].spec_key()
                <= #[trigger] after[j].spec_key() by {
                if j < p {
                    assert(after[i] == before[i] && after[j] == before[j]);
                } else if j == p {
                    if i < p {
                        assert(after[i] == before[i]);
                    }
                } else if i > p {
                    assert(after[i] == before[i - 1] && after[j] == before[j - 1]);
                } else if i == p {
                    assert(after[j] == before[j - 1]);
                    assert(!(before[p as int].spec_key() <= x.spec_key()));
                    assert(before[p as int].spec_key() <= before[j - 1].spec_key());
                } else {
                    assert(after[i] == before[i] && after[j] == before[j - 1]);
                }
            }
        }
    }

    /// The items in order of their keys, smallest first.
    pub fn into_sorted_vec(self) -> (r: Vec<T>)
        ensures
            r@ == self@,
    {
        self.items
    }
}

/// Whether repeating `T` from `input` gives items and leaves `rest`, where `heap` holds those
/// items (as a multiset).
#[verifier::opaque]
pub open spec fn repeats_to_heap<'a, I: ParseOffsetInput<'a>, T: Parse<'a, I>>(
    input: I,
    ctx: ContextModel,
    heap: Seq<T>,
    rest: I,
) -> bool {
    exists|items: Seq<T>|
        #[trigger] repeat_rel::<I, T>(input, ctx, "Many0"@, Ok((items, rest))) && heap.to_multiset()
            == items.to_multiset()
}

impl<'a, I: ParseOffsetInput<'a>, T: Parse<'a, I> + HeapKey> Parse<'a, I> for BinaryHeap<T> {
    /// The values of repeated parses of `T`, up to the first soft failure, in order of their
    /// keys; see [`repeat_rel`] and [`repeats_to_heap`].
    open spec fn parse_rel(input: I, ctx: ContextModel, out: Result<(BinaryHeap<T>, I), ErrorModel>) -> bool {
        match out {
            Ok((heap, rest)) => heap.wf() && repeats_to_heap::<I, T>(input, ctx, heap@, rest),
            Err(e) => repeat_rel::<I, T>(input, ctx, "Many0"@, Err(e)),
        }
    }

    fn parse_with_context(input: I, context: &mut ParseOffsetContext) -> (r: ParseResult<
        (BinaryHeap<T>, I),
    >) {
        let ghost ctx = context@;
        let (mut items, rest) = match Vec::<T>::parse_with_context(input, context) {
            Ok(p) => p,
            Err(e) => return Err(e),
        };
        let ghost all = items@;
        let mut out: BinaryHeap<T> = BinaryHeap::new();
        while items.len() > 0
            invariant
                out.wf(),
                items@.to_multiset().add(out@.to_multiset()) == all.to_multiset(),
            decreases items@.len(),
        {
            let ghost before = items@;
            let ghost heap_before = out@;
            let x = items.pop().unwrap();
            assert(before =~= items@.push(x));
            out.push(x);
            assert(items@.to_multiset().add(out@.to_multiset()) =~= before.to_multiset().add(
                heap_before.to_multiset(),
            ));
        }
        assert(items@.to_multiset() =~= Multiset::empty());
        assert(out@.to_multiset() =~= all.to_multiset());
        proof {
            reveal(repeats_to_heap);
            assert(repeat_rel::<I, T>(input, ctx, "Many0"@, Ok((all, rest))));
        }
        assert(repeats_to_heap::<I, T>(input, ctx, out@, rest));
        Ok((out, rest))
    }
}

} // verus!
