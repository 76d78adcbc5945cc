//! `DelimNested`: a value between balanced, possibly nested delimiters.
use vstd::prelude::*;
use vstd::utf8::*;

use crate::error::{ErrorModel, ParseError, ParseResult};
use crate::input::Input;
use crate::literals::{LBrace, LBracket, LParen, RBrace, RBracket, RParen};
use crate::parse::offset::{ContextModel, ParseOffsetContext, ParseOffsetInput};
use crate::parse::traits::{no_progress, no_progress_error};
use crate::parse::Parse;
use crate::text::str_eq;
use crate::token::{literal_rel, parse_literal, Token};

verus! {

/// `Inner` between a `Left` and its matching `Right`: the delimiters may nest inside, and
/// `Inner` is parsed from exactly the text between the outer pair.
#[derive(Debug, Clone, PartialEq, Eq, Hash, PartialOrd, Ord)]
pub struct DelimNested<Left, Right, Inner> {
    pub left: Left,
    pub inner: Inner,
    pub right: Right,
}

/// `I` between parentheses.
pub type Parenthesized<I> = DelimNested<LParen, RParen, I>;

/// `I` between square brackets.
pub type Bracketed<I> = DelimNested<LBracket, RBracket, I>;

/// `I` between braces.
pub type Braced<I> = DelimNested<LBrace, RBrace, I>;

impl<Left, Right, Inner> DelimNested<Left, Right, Inner> {
    /// Applies `f` to the inner value.
    pub fn map_inner<NewInner, F: FnOnce(Inner) -> NewInner>(self, f: F) -> (r: DelimNested<
        Left,
        Right,
        NewInner,
    >)
        requires
            f.requires((self.inner,)),
        ensures
            r.left == self.left,
            r.right == self.right,
            f.ensures((self.inner,), r.inner),
    {
        DelimNested { left: self.left, inner: f(self.inner), right: self.right }
    }

    /// The inner value.
    pub fn into_inner(self) -> (r: Inner)
        ensures
            r == self.inner,
    {
        self.inner
    }

    /// A reference to the inner value.
    pub fn inner(&self) -> (r: &Inner)
        ensures
            *r == self.inner,
    {
        &self.inner
    }

    /// The inner value, for update.
    pub fn inner_mut(&mut self) -> (r: &mut Inner)
        ensures
            *r == old(self).inner,
            final(self).inner == *final(r),
            final(self).left == old(self).left,
            final(self).right == old(self).right,
    {
        &mut self.inner
    }
}

/// The distance from `from` to `to`, zero when `to` is longer.
pub open spec fn dist<'a, I: Input<'a>>(from: I, to: I) -> nat {
    if to.spec_len() <= from.spec_len() {
        (from.spec_len() - to.spec_len()) as nat
    } else {
        0
    }
}

/// Where the delimiter closing the pair that is `depth` levels deep at `cursor` starts:
/// scanning on from `cursor`, the nearer of the next `left` and the next `right` is taken (a
/// tie goes to the longer delimiter); a `left` opens one more level, a `right` closes one, and
/// the `right` that closes the outermost level is the answer.
pub open spec fn closing_at<'a, I: ParseOffsetInput<'a>>(
    left: Seq<char>,
    right: Seq<char>,
    cursor: I,
    depth: nat,
    ctx: ContextModel,
) -> Result<I, ErrorModel>
    decreases cursor.spec_len(),
{
    match (cursor.spec_find(left), cursor.spec_find(right)) {
        (Err(e), _) => Err(e),
        (Ok(_), Err(e)) => Err(e),
        (Ok(nl), Ok(nr)) => {
            let open_next = match (nl, nr) {
                (Some(la), Some(ra)) => dist(cursor, la) < dist(cursor, ra) || (dist(cursor, la)
                    == dist(cursor, ra) && encode_utf8(left).len() > encode_utf8(right).len()),
                (Some(_), None) => true,
                _ => false,
            };
            if open_next {
                match literal_rel(left, nl->0, ctx) {
                    Err(e) => Err(e),
                    Ok(rest) => if rest.spec_len() < cursor.spec_len() {
                        closing_at(left, right, rest, depth + 1, ctx)
                    } else {
                        Err(no_progress_error("DelimNested"@))
                    },
                }
            } else {
                match nr {
                    None => Err(ErrorModel::UnexpectedEOF),
                    Some(ra) => if depth <= 1 {
                        Ok(ra)
                    } else {
                        match literal_rel(right, ra, ctx) {
                            Err(e) => Err(e),
                            Ok(rest) => if rest.spec_len() < cursor.spec_len() {
                                closing_at(left, right, rest, (depth - 1) as nat, ctx)
                            } else {
                                Err(no_progress_error("DelimNested"@))
                            },
                        }
                    },
                }
            }
        },
    }
}

/// Finds where the delimiter closing the pair that is `depth` levels deep at `cursor` starts;
/// see [`closing_at`].
fn find_closing<'a, I: ParseOffsetInput<'a>>(
    left: &'static str,
    right: &'static str,
    cursor: I,
    depth: usize,
    context: &ParseOffsetContext,
) -> (r: ParseResult<I>)
    requires
        depth >= 1,
        depth + cursor.spec_len() <= usize::MAX,
    ensures
        match r {
            Ok(at) => closing_at(left@, right@, cursor, depth as nat, context@) == Ok::<
                I,
                ErrorModel,
            >(at),
            Err(e) => closing_at(left@, right@, cursor, depth as nat, context@) == Err::<
                I,
                ErrorModel,
            >(e@),
        },
    decreases cursor.spec_len(),
{
    let next_left = cursor.find(left)?;
    let next_right = cursor.find(right)?;
    let n = cursor.input_len();
    let open_next = match (next_left, next_right) {
        (Some(la), Some(ra)) => {
            let ld = n.saturating_sub(la.input_len());
            let rd = n.saturating_sub(ra.input_len());
            ld < rd || (ld == rd && left.as_bytes().len() > right.as_bytes().len())
        },
        (Some(_), None) => true,
        _ => false,
    };
    if open_next {
        let la = match next_left {
            Some(la) => la,
            None => {
                assert(false);
                return Err(ParseError::UnexpectedEOF);
            },
        };
        let rest = parse_literal(left, la, context)?;
        if rest.input_len() >= n {
            return Err(no_progress("DelimNested"));
        }
        find_closing(left, right, rest, depth + 1, context)
    } else {
        match next_right {
            None => Err(ParseError::UnexpectedEOF),
            Some(ra) => {
                if depth <= 1 {
                    Ok(ra)
                } else {
                    let rest = parse_literal(right, ra, context)?;
                    if rest.input_len() >= n {
                        return Err(no_progress("DelimNested"));
                    }
                    find_closing(left, right, rest, depth - 1, context)
                }
            },
        }
    }
}

/// The error for delimiters that cannot nest: an empty one, or two identical ones.
pub open spec fn delimiter_error(left: Seq<char>, right: Seq<char>) -> Option<ErrorModel> {
    if left.len() == 0 || right.len() == 0 {
        Some(ErrorModel::Custom("nested delimiters must be non-empty tokens"@))
    } else if left == right {
        Some(ErrorModel::Custom("nested delimiters must not be identical tokens"@))
    } else {
        None
    }
}

/// Where the inner text of a nested pair starts and ends: after the opening delimiter, and at
/// its closing delimiter.
pub open spec fn nested_bounds<'a, I: ParseOffsetInput<'a>, L: Token, R: Token>(
    input: I,
    ctx: ContextModel,
) -> Result<(I, I), ErrorModel> {
    match delimiter_error(L::spec_value(), R::spec_value()) {
        Some(e) => Err(e),
        None => match literal_rel(L::spec_value(), input, ctx) {
            Err(e) => Err(e),
            Ok(cursor) => if cursor.spec_len() >= input.spec_len() {
                Err(no_progress_error("DelimNested"@))
            } else {
                match closing_at(L::spec_value(), R::spec_value(), cursor, 1, ctx) {
                    Err(e) => Err(e),
                    Ok(close) => Ok((cursor, close)),
                }
            },
        },
    }
}

/// Whether the pair's inner text parses as `inner` and the closing delimiter then leaves
/// `rest`.
pub open spec fn nested_ok<'a, I: ParseOffsetInput<'a>, L: Token, R: Token, Inner: Parse<'a, I>>(
    input: I,
    ctx: ContextModel,
    inner: Inner,
    rest: I,
) -> bool {
    match nested_bounds::<I, L, R>(input, ctx) {
        Err(_) => false,
        Ok((cursor, close)) => match cursor.spec_slice_to(close) {
            Err(_) => false,
            Ok(segment) => (exists|left_over: I|
                #[trigger] Inner::parse_rel(segment, ctx, Ok((inner, left_over)))) && literal_rel(
                R::spec_value(),
                close,
                ctx,
            ) == Ok::<I, ErrorModel>(rest),
        },
    }
}

/// Whether finding the pair, slicing its inner text, parsing it, or matching the closing
/// delimiter fails with `e`.
pub open spec fn nested_err<'a, I: ParseOffsetInput<'a>, L: Token, R: Token, Inner: Parse<'a, I>>(
    input: I,
    ctx: ContextModel,
    e: ErrorModel,
) -> bool {
    match nested_bounds::<I, L, R>(input, ctx) {
        Err(e0) => e == e0,
        Ok((cursor, close)) => match cursor.spec_slice_to(close) {
            Err(e0) => e == e0,
            Ok(segment) => Inner::parse_rel(segment, ctx, Err(e)) || ((exists|v: Inner, left_over: I|
                #[trigger] Inner::parse_rel(segment, ctx, Ok((v, left_over)))) && literal_rel(
                R::spec_value(),
                close,
                ctx,
            ) == Err::<I, ErrorModel>(e)),
        },
    }
}

impl<'a, I: ParseOffsetInput<'a>, L: Token, R: Token, Inner: Parse<'a, I>> Parse<'a, I> for DelimNested<
    L,
    R,
    Inner,
> {
    /// The opening delimiter, `Inner` over the text up to the matching closing delimiter,
    /// then the closing delimiter; see [`nested_bounds`].
    open spec fn parse_rel(input: I, ctx: ContextModel, out: Result<(DelimNested<L, R, Inner>, I), ErrorModel>) -> bool {
        match out {
            Err(e) => nested_err::<I, L, R, Inner>(input, ctx, e),
            Ok(p) => p.0.left == L::spec_token() && p.0.right == R::spec_token() && nested_ok::<
                I,
                L,
                R,
                Inner,
            >(input, ctx, p.0.inner, p.1),
        }
    }

    fn parse_with_context(input: I, context: &mut ParseOffsetContext) -> (r: ParseResult<
        (DelimNested<L, R, Inner>, I),
    >) {
        let ghost ctx = context@;
        let left = L::value();
        let right = R::value();
        if left.unicode_len() == 0 || right.unicode_len() == 0 {
            return Err(ParseError::custom("nested delimiters must be non-empty tokens"));
        }
        if str_eq(left, right) {
            return Err(ParseError::custom("nested delimiters must not be identical tokens"));
        }
        let cursor = parse_literal(left, input, context)?;
        let n = input.input_len();
        if cursor.input_len() >= n {
            return Err(no_progress("DelimNested"));
        }
        let close = find_closing(left, right, cursor, 1, context)?;
        let segment = cursor.slice_to(close)?;
        let (inner, left_over) = Inner::parse_with_context(segment, context)?;
        assert(Inner::parse_rel(segment, ctx, Ok((inner, left_over))));
        let rest = parse_literal(right, close, context)?;
        Ok((DelimNested { left: L::token(), inner, right: R::token() }, rest))
    }
}

/// The number of bytes `b` in `s`.
pub open spec fn count_of(s: Seq<u8>, b: u8) -> nat
    decreases s.len(),
{
    if s.len() == 0 {
        0
    } else {
        count_of(s.drop_last(), b) + if s.last() == b {
            1nat
        } else {
            0nat
        }
    }
}

/// Whether, starting `d` levels deep, the opening (`lb`) and closing (`rb`) bytes of `u` keep
/// the depth at one or more throughout and leave it at exactly one: `u` followed by a closing
/// byte closes the level that was open before it.
pub open spec fn closes_at_depth(u: Seq<u8>, lb: u8, rb: u8, d: int) -> bool {
    &&& forall|k: int|
        0 <= k <= u.len() ==> d + count_of(#[trigger] u.take(k), lb) - count_of(u.take(k), rb) >= 1
    &&& d + count_of(u, lb) - count_of(u, rb) == 1
}

/// Whether `s` is balanced in `lb` and `rb`: every prefix holds at least as many opening
/// bytes as closing ones, and all of `s` as many of each.
pub open spec fn balanced(s: Seq<u8>, lb: u8, rb: u8) -> bool {
    closes_at_depth(s, lb, rb, 1)
}

/// Counting over two sequences one after the other adds the counts.
pub proof fn lemma_count_concat(a: Seq<u8>, c: Seq<u8>, b: u8)
    ensures
        count_of(a + c, b) == count_of(a, b) + count_of(c, b),
    decreases c.len(),
{
    if c.len() == 0 {
        assert(a + c =~= a);
    } else {
        assert((a + c).drop_last() =~= a + c.drop_last());
        lemma_count_concat(a, c.drop_last(), b);
    }
}

/// A sequence none of whose bytes is `b` counts no `b`.
pub proof fn lemma_count_absent(a: Seq<u8>, b: u8)
    requires
        forall|j: int| 0 <= j < a.len() ==> a[j] != b,
    ensures
        count_of(a, b) == 0,
    decreases a.len(),
{
    if a.len() > 0 {
        lemma_count_absent(a.drop_last(), b);
    }
}

/// After a prefix of `u` that holds no delimiter but ends in one, `u` closes the level at the
/// depth that delimiter leads to.
pub proof fn lemma_closes_after_delimiter(u: Seq<u8>, lb: u8, rb: u8, d: int, i: int)
    requires
        closes_at_depth(u, lb, rb, d),
        lb != rb,
        0 <= i < u.len(),
        u[i] == lb || u[i] == rb,
        forall|j: int| 0 <= j < i ==> u[j] != lb && u[j] != rb,
    ensures
        closes_at_depth(
            u.skip(i + 1),
            lb,
            rb,
            if u[i] == lb {
                d + 1
            } else {
                d - 1
            },
        ),
        u[i] == rb ==> d >= 2,
{
    let h = u.take(i + 1);
    let d2 = if u[i] == lb {
        d + 1
    } else {
        d - 1
    };
    lemma_count_absent(u.take(i), lb);
    lemma_count_absent(u.take(i), rb);
    assert(h.drop_last() =~= u.take(i));
    assert(d + count_of(h, lb) - count_of(h, rb) == d2);
    assert(d + count_of(u.take(i + 1), lb) - count_of(u.take(i + 1), rb) >= 1);
    let v = u.skip(i + 1);
    assert forall|k: int| 0 <= k <= v.len() implies d2 + count_of(#[trigger] v.take(k), lb)
        - count_of(v.take(k), rb) >= 1 by {
        assert(u.take(i + 1 + k) =~= h + v.take(k));
        lemma_count_concat(h, v.take(k), lb);
        lemma_count_concat(h, v.take(k), rb);
        assert(d + count_of(u.take(i + 1 + k), lb) - count_of(u.take(i + 1 + k), rb) >= 1);
    }
    assert(u =~= h + v);
    lemma_count_concat(h, v, lb);
    lemma_count_concat(h, v, rb);
}

/// A sequence with no delimiter closes the level only at depth one.
pub proof fn lemma_closes_without_delimiter(u: Seq<u8>, lb: u8, rb: u8, d: int)
    requires
        closes_at_depth(u, lb, rb, d),
        forall|j: int| 0 <= j < u.len() ==> u[j] != lb && u[j] != rb,
    ensures
        d == 1,
{
    lemma_count_absent(u, lb);
    lemma_count_absent(u, rb);
}

} // verus!
