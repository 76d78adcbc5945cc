//! `Or`: ordered choice between two parsers, with fatal errors committing and failures
//! combined.
use vstd::prelude::*;

use crate::error::{
    dedup_chars, spec_preview, str_views, ErrorModel, ParseError, ParseResult, SourceSpan,
    DEFAULT_INPUT_PREVIEW,
};
use crate::input::Input;
use crate::parse::offset::{ContextModel, ParseOffsetContext, ParseOffsetInput};
use crate::parse::Parse;

verus! {

/// The value of the first of two parsers that succeeded.
#[derive(Debug, Clone, PartialEq, Eq, Hash, PartialOrd, Ord)]
pub enum Or<A, B> {
    Left(A),
    Right(B),
}

/// Alias for [`Or`].
pub type Either<A, B> = Or<A, B>;

impl<A, B> Or<A, B> {
    /// Whether this is the left alternative.
    pub fn is_left(&self) -> (r: bool)
        ensures
            r == (*self is Left),
    {
        match self {
            Or::Left(_) => true,
            Or::Right(_) => false,
        }
    }

    /// Whether this is the right alternative.
    pub fn is_right(&self) -> (r: bool)
        ensures
            r == (*self is Right),
    {
        match self {
            Or::Left(_) => false,
            Or::Right(_) => true,
        }
    }

    /// The left value, if this is the left alternative.
    pub fn left(&self) -> (r: Option<&A>)
        ensures
            match *self {
                Or::Left(a) => r == Some(&a),
                Or::Right(_) => r is None,
            },
    {
        match self {
            Or::Left(value) => Some(value),
            Or::Right(_) => None,
        }
    }

    /// The right value, if this is the right alternative.
    pub fn right(&self) -> (r: Option<&B>)
        ensures
            match *self {
                Or::Left(_) => r is None,
                Or::Right(b) => r == Some(&b),
            },
    {
        match self {
            Or::Left(_) => None,
            Or::Right(value) => Some(value),
        }
    }

    /// The left value, for update, if this is the left alternative.
    pub fn left_mut(&mut self) -> (r: Option<&mut A>)
        ensures
            match *old(self) {
                Or::Left(a) => r matches Some(x) && *x == a && *final(self) == Or::<A, B>::Left(
                    *final(x),
                ),
                Or::Right(_) => r is None && *final(self) == *old(self),
            },
    {
        match self {
            Or::Left(value) => Some(value),
            Or::Right(_) => None,
        }
    }

    /// The right value, for update, if this is the right alternative.
    pub fn right_mut(&mut self) -> (r: Option<&mut B>)
        ensures
            match *old(self) {
                Or::Left(_) => r is None && *final(self) == *old(self),
                Or::Right(b) => r matches Some(y) && *y == b && *final(self) == Or::<A, B>::Right(
                    *final(y),
                ),
            },
    {
        match self {
            Or::Left(_) => None,
            Or::Right(value) => Some(value),
        }
    }

    /// The alternative with its value borrowed for update.
    pub fn as_mut(&mut self) -> (r: Or<&mut A, &mut B>)
        ensures
            match *old(self) {
                Or::Left(a) => r matches Or::Left(x) && *x == a && *final(self) == Or::<A, B>::Left(
                    *final(x),
                ),
                Or::Right(b) => r matches Or::Right(y) && *y == b && *final(self) == Or::<A, B>::Right(
                    *final(y),
                ),
            },
    {
        match self {
            Or::Left(value) => Or::Left(value),
            Or::Right(value) => Or::Right(value),
        }
    }

    /// The left value, if this is the left alternative.
    pub fn into_left(self) -> (r: Option<A>)
        ensures
            match self {
                Or::Left(a) => r == Some(a),
                Or::Right(_) => r is None,
            },
    {
        match self {
            Or::Left(value) => Some(value),
            Or::Right(_) => None,
        }
    }

    /// The right value, if this is the right alternative.
    pub fn into_right(self) -> (r: Option<B>)
        ensures
            match self {
                Or::Left(_) => r is None,
                Or::Right(b) => r == Some(b),
            },
    {
        match self {
            Or::Left(_) => None,
            Or::Right(value) => Some(value),
        }
    }

    /// The alternative with its value borrowed.
    pub fn as_ref(&self) -> (r: Or<&A, &B>)
        ensures
            match *self {
                Or::Left(a) => r == Or::<&A, &B>::Left(&a),
                Or::Right(b) => r == Or::<&A, &B>::Right(&b),
            },
    {
        match self {
            Or::Left(value) => Or::Left(value),
            Or::Right(value) => Or::Right(value),
        }
    }

    /// Applies `map` to the left value.
    pub fn map_left<C, F: FnOnce(A) -> C>(self, map: F) -> (r: Or<C, B>)
        requires
            self matches Or::Left(a) ==> map.requires((a,)),
        ensures
            match self {
                Or::Left(a) => r matches Or::Left(c) && map.ensures((a,), c),
                Or::Right(b) => r == Or::<C, B>::Right(b),
            },
    {
        match self {
            Or::Left(value) => Or::Left(map(value)),
            Or::Right(value) => Or::Right(value),
        }
    }

    /// Applies `map` to the right value.
    pub fn map_right<C, F: FnOnce(B) -> C>(self, map: F) -> (r: Or<A, C>)
        requires
            self matches Or::Right(b) ==> map.requires((b,)),
        ensures
            match self {
                Or::Left(a) => r == Or::<A, C>::Left(a),
                Or::Right(b) => r matches Or::Right(c) && map.ensures((b,), c),
            },
    {
        match self {
            Or::Left(value) => Or::Left(value),
            Or::Right(value) => Or::Right(map(value)),
        }
    }

    /// Folds the alternative into one value with `left` or `right`.
    pub fn either<T, FL: FnOnce(A) -> T, FR: FnOnce(B) -> T>(self, left: FL, right: FR) -> (r: T)
        requires
            self matches Or::Left(a) ==> left.requires((a,)),
            self matches Or::Right(b) ==> right.requires((b,)),
        ensures
            match self {
                Or::Left(a) => left.ensures((a,), r),
                Or::Right(b) => right.ensures((b,), r),
            },
    {
        match self {
            Or::Left(value) => left(value),
            Or::Right(value) => right(value),
        }
    }
}

/// The expected tokens and the found text of an error whose root cause is about tokens.
pub open spec fn expected_tokens(e: ErrorModel) -> Option<(Seq<Seq<char>>, Seq<char>)> {
    match e.root_cause() {
        ErrorModel::UnexpectedToken { expected, found } => Some((seq![expected], found)),
        ErrorModel::ExpectedOneOf { expected, found } => Some((expected, found)),
        _ => None,
    }
}

/// The merge of two token errors at the same span that found the same text: one error
/// expecting the tokens of both.
pub open spec fn merged_tokens(left: ErrorModel, right: ErrorModel) -> Option<ErrorModel> {
    if left.span() != right.span() {
        None
    } else {
        match (expected_tokens(left), expected_tokens(right)) {
            (Some((le, lf)), Some((re, rf))) => if lf != rf {
                None
            } else {
                let m = ErrorModel::ExpectedOneOf {
                    expected: dedup_chars(le + re),
                    found: spec_preview(lf, DEFAULT_INPUT_PREVIEW as nat),
                };
                match left.span() {
                    Some(span) => Some(m.with_span(span)),
                    None => Some(m),
                }
            },
            _ => None,
        }
    }
}

/// The error reported when both alternatives fail: their merge when both are token errors
/// at one place, else the farther of the two.
pub open spec fn combined_error(left: ErrorModel, right: ErrorModel) -> ErrorModel {
    match merged_tokens(left, right) {
        Some(m) => m,
        None => left.farthest(right),
    }
}

/// The expected tokens and found text of a token error.
fn expected_tokens_of(e: &ParseError) -> (r: Option<(Vec<&'static str>, String)>)
    ensures
        match r {
            Some((v, f)) => expected_tokens(e@) == Some((str_views(v@), f@)),
            None => expected_tokens(e@) is None,
        },
{
    match e.root_cause() {
        ParseError::UnexpectedToken { expected, found } => {
            let mut v: Vec<&'static str> = Vec::new();
            v.push(*expected);
            assert(str_views(v@) =~= seq![expected@]);
            Some((v, found.clone()))
        },
        ParseError::ExpectedOneOf { expected, found } => {
            let v = crate::error::copy_tokens(expected);
            Some((v, found.clone()))
        },
        _ => None,
    }
}

/// The merge of two token errors; see [`merged_tokens`].
fn merge_expected_token_errors(left: &ParseError, right: &ParseError) -> (r: Option<ParseError>)
    ensures
        match r {
            Some(m) => merged_tokens(left@, right@) == Some(m@),
            None => merged_tokens(left@, right@) is None,
        },
{
    let ls = left.span();
    let rs = right.span();
    let same = match (ls, rs) {
        (Some(a), Some(b)) => a.start == b.start && a.end == b.end,
        (None, None) => true,
        _ => false,
    };
    if !same {
        return None;
    }
    let (mut le, lf) = match expected_tokens_of(left) {
        Some(p) => p,
        None => {
            return None;
        },
    };
    let (re, rf) = match expected_tokens_of(right) {
        Some(p) => p,
        None => {
            return None;
        },
    };
    if !crate::text::str_eq(lf.as_str(), rf.as_str()) {
        return None;
    }
    let ghost lv = le@;
    let mut i: usize = 0;
    while i < re.len()
        invariant
            i <= re@.len(),
            le@ == lv + re@.take(i as int),
        decreases re@.len() - i,
    {
        le.push(re[i]);
        assert(re@.take(i + 1) =~= re@.take(i as int).push(re@[i as int]));
        i = i + 1;
    }
    assert(re@.take(re@.len() as int) =~= re@);
    assert(str_views(le@) =~= str_views(lv) + str_views(re@));
    let merged = ParseError::expected_one_of(le.as_slice(), lf.as_str());
    match ls {
        Some(span) => Some(merged.with_span(span)),
        None => Some(merged),
    }
}

/// The error reported when both alternatives fail; see [`combined_error`].
pub fn combine_alternative_errors(left: ParseError, right: ParseError) -> (r: ParseError)
    ensures
        r@ == combined_error(left@, right@),
{
    match merge_expected_token_errors(&left, &right) {
        Some(m) => m,
        None => left.farthest(right),
    }
}

impl<'a, I: ParseOffsetInput<'a>, A: Parse<'a, I>, B: Parse<'a, I>> Parse<'a, I> for Or<A, B> {
    /// What `A` gives; a fatal error of `A` is passed on; otherwise what `B` gives from the
    /// same input, a fatal error of `B` passed on and a soft one combined with `A`'s.
    open spec fn parse_rel(input: I, ctx: ContextModel, out: Result<(Or<A, B>, I), ErrorModel>) -> bool {
        match out {
            Ok((Or::Left(a), rest)) => A::parse_rel(input, ctx, Ok((a, rest))),
            Ok((Or::Right(b), rest)) => crate::parse::traits::fails_softly::<I, A>(input, ctx)
                && B::parse_rel(input, ctx, Ok((b, rest))),
            Err(e) => (A::parse_rel(input, ctx, Err(e)) && e.is_fatal()) || (
            crate::parse::traits::fails_softly::<I, A>(input, ctx) && B::parse_rel(input, ctx, Err(e))
                && e.is_fatal()) || exists|le: ErrorModel, re: ErrorModel|
                #![trigger A::parse_rel(input, ctx, Err(le)), B::parse_rel(input, ctx, Err(re))]
                A::parse_rel(input, ctx, Err(le)) && !le.is_fatal() && B::parse_rel(input, ctx, Err(re))
                    && !re.is_fatal() && e == combined_error(le, re),
        }
    }

    fn parse_with_context(input: I, context: &mut ParseOffsetContext) -> (r: ParseResult<(Or<A, B>, I)>) {
        let ghost ctx = context@;
        match A::parse_with_context(input, context) {
            Ok((a, rest)) => Ok((Or::Left(a), rest)),
            Err(left_err) => {
                if left_err.is_fatal() {
                    return Err(left_err);
                }
                assert(A::parse_rel(input, ctx, Err(left_err@)));
                match B::parse_with_context(input, context) {
                    Ok((b, rest)) => Ok((Or::Right(b), rest)),
                    Err(right_err) => {
                        if right_err.is_fatal() {
                            return Err(right_err);
                        }
                        assert(B::parse_rel(input, ctx, Err(right_err@)));
                        Err(combine_alternative_errors(left_err, right_err))
                    },
                }
            },
        }
    }
}

} // verus!
