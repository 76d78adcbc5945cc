//! `Keyword`: a token that must be followed by a boundary character.
use std::marker::PhantomData;
use vstd::prelude::*;
use vstd::std_specs::cmp::PartialEqSpec;
use vstd::utf8::*;

use crate::error::{ErrorModel, ParseError, ParseResult, SourceSpan};
use crate::input::Input;
use crate::parse::offset::{
    current_parse_offset, spec_current_offset, ContextModel, ParseOffsetContext,
    ParseOffsetInput,
};
use crate::parse::Parse;
use crate::text::{char_is_alphanumeric, is_ident_boundary};
use crate::token::{literal_rel, parse_literal, Token};

verus! {

/// Boundary policy used by [`Keyword`]: a keyword matches only when the character after it,
/// if any, is a boundary.
pub trait KeywordBoundary {
    /// Whether `ch` may follow a keyword.
    spec fn spec_is_boundary(ch: char) -> bool;

    /// Whether `ch` may follow a keyword.
    fn is_boundary(ch: char) -> (r: bool)
        ensures
            r == Self::spec_is_boundary(ch),
    ;
}

/// Default boundary policy for language keywords: alphanumeric characters and `_` continue an
/// identifier and are therefore not boundaries.
#[derive(Debug, Clone, Copy, PartialEq, Eq, Hash, PartialOrd, Ord, Default)]
pub struct IdentBoundary;

impl KeywordBoundary for IdentBoundary {
    open spec fn spec_is_boundary(ch: char) -> bool {
        !(char_is_alphanumeric(ch) || ch == '_')
    }

    fn is_boundary(ch: char) -> (r: bool) {
        is_ident_boundary(ch)
    }
}

/// The number of bytes in the UTF-8 encoding of `c`.
pub open spec fn spec_len_utf8(c: char) -> nat {
    encode_scalar(c as u32).len()
}

/// The number of bytes in the UTF-8 encoding of `c`.
pub fn len_utf8(c: char) -> (r: usize)
    ensures
        r == spec_len_utf8(c),
{
    proof {
        char_is_scalar(c);
    }
    let v = c as u32;
    if v < 0x80 {
        1
    } else if v < 0x800 {
        2
    } else if v < 0x10000 {
        3
    } else {
        4
    }
}

/// A [`Token`] parsed as a keyword: its text must be followed by a boundary character or the
/// end of the input, which keeps `null` from matching the start of `nullish`.
#[derive(Debug, PartialEq, Eq, Hash)]
pub struct Keyword<T, B = IdentBoundary> {
    token: T,
    _boundary: PhantomData<B>,
}

impl<T: Copy, B> Clone for Keyword<T, B> {
    fn clone(&self) -> (r: Self)
        ensures
            r == *self,
    {
        Keyword { token: self.token, _boundary: PhantomData }
    }
}

impl<T: Copy, B> Copy for Keyword<T, B> {

}

/// Convenience alias for [`Keyword`] with the default identifier boundary.
pub type Kw<T> = Keyword<T, IdentBoundary>;

impl<T, B> Keyword<T, B> {
    /// The keyword's token.
    pub closed spec fn spec_token(self) -> T {
        self.token
    }

    /// The keyword for `token`.
    pub closed spec fn spec_of(token: T) -> Self {
        Keyword { token, _boundary: PhantomData }
    }

    /// The keyword for `token`.
    pub fn new(token: T) -> (r: Self)
        ensures
            r == Self::spec_of(token),
            r.spec_token() == token,
    {
        Keyword { token, _boundary: PhantomData }
    }

    /// The token.
    pub fn into_inner(self) -> (r: T)
        ensures
            r == self.spec_token(),
    {
        self.token
    }

    /// A reference to the token.
    pub fn inner(&self) -> (r: &T)
        ensures
            *r == self.spec_token(),
    {
        &self.token
    }
}

/// The error for keyword `value` followed by `next`, which is no boundary.
pub open spec fn boundary_error(value: Seq<char>, start: usize, next: char) -> ErrorModel {
    ErrorModel::Custom("keyword '"@ + value + "' must be followed by a boundary"@).with_span(
        SourceSpan::spec_from_start_len(
            start,
            if encode_utf8(value).len() + spec_len_utf8(next) > usize::MAX {
                usize::MAX
            } else {
                (encode_utf8(value).len() + spec_len_utf8(next)) as usize
            },
        ),
    )
}

impl<T: PartialEq<T>, B> PartialEq<T> for Keyword<T, B> {
    fn eq(&self, other: &T) -> (r: bool) {
        self.token == *other
    }
}

impl<T: PartialEq<T>, B> vstd::std_specs::cmp::PartialEqSpecImpl<T> for Keyword<T, B> {
    open spec fn obeys_eq_spec() -> bool {
        T::obeys_eq_spec()
    }

    open spec fn eq_spec(&self, other: &T) -> bool {
        self.spec_token().eq_spec(other)
    }
}

impl<T, B> std::ops::Deref for Keyword<T, B> {
    type Target = T;

    fn deref(&self) -> (r: &T)
        ensures
            *r == self.spec_token(),
    {
        &self.token
    }
}

impl<'a, I: ParseOffsetInput<'a>, T: Token, B: KeywordBoundary> Parse<'a, I> for Keyword<T, B> {
    /// The token's text, then a boundary character or the end of the input; the character
    /// after it is looked at but not consumed.
    open spec fn parse_rel(input: I, ctx: ContextModel, out: Result<(Keyword<T, B>, I), ErrorModel>) -> bool {
        match literal_rel(T::spec_value(), input, ctx) {
            Err(e) => out == Err::<(Keyword<T, B>, I), ErrorModel>(e),
            Ok(rest) => match rest.spec_take_char() {
                Err(e) => out == Err::<(Keyword<T, B>, I), ErrorModel>(e),
                Ok(Some((next, _))) => if B::spec_is_boundary(next) {
                    out == Ok::<(Keyword<T, B>, I), ErrorModel>((Self::spec_of(T::spec_token()), rest))
                } else {
                    out == Err::<(Keyword<T, B>, I), ErrorModel>(
                        boundary_error(T::spec_value(), spec_current_offset(ctx, input), next),
                    )
                },
                Ok(None) => out == Ok::<(Keyword<T, B>, I), ErrorModel>((Self::spec_of(T::spec_token()), rest)),
            },
        }
    }

    fn parse_with_context(input: I, context: &mut ParseOffsetContext) -> (r: ParseResult<
        (Keyword<T, B>, I),
    >) {
        let start = current_parse_offset(context, input);
        let value = T::value();
        let rest = parse_literal(value, input, context)?;
        match rest.take_char()? {
            Some((next, _)) => {
                if !B::is_boundary(next) {
                    let mut message = String::new();
                    message.append("keyword '");
                    message.append(value);
                    message.append("' must be followed by a boundary");
                    proof {
                        reveal_strlit("keyword '");
                        reveal_strlit("' must be followed by a boundary");
                    }
                    let width = value.as_bytes().len().saturating_add(len_utf8(next));
                    assert(message@ =~= "keyword '"@ + value@ + "' must be followed by a boundary"@);
                    return Err(
                        ParseError::custom_owned(message).with_span(
                            SourceSpan::from_start_len(start, width),
                        ),
                    );
                }
            },
            None => {},
        }
        Ok((Keyword::new(T::token()), rest))
    }
}

} // verus!
