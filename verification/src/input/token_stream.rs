//! Input over a slice of string tokens, measured in tokens.
use vstd::prelude::*;

use super::{res_model, text_res_model, Input};
use crate::error::{ErrorModel, ParseError, ParseResult};
use crate::text::{str_eq, CharClass};

verus! {

/// Whether every character of `t` belongs to `class`.
pub open spec fn all_in_class(t: Seq<char>, class: CharClass) -> bool {
    forall|i: int| 0 <= i < t.len() ==> class.spec_matches(#[trigger] t[i])
}

/// Whether no character of `t` belongs to `class`.
pub open spec fn none_in_class(t: Seq<char>, class: CharClass) -> bool {
    forall|i: int| 0 <= i < t.len() ==> !class.spec_matches(#[trigger] t[i])
}

/// The number of leading tokens that are empty or all whitespace.
pub open spec fn blank_prefix_len(toks: Seq<&str>) -> nat
    decreases toks.len(),
{
    if toks.len() == 0 || !all_in_class(toks[0]@, CharClass::Whitespace) {
        0
    } else {
        1 + blank_prefix_len(toks.drop_first())
    }
}

/// After the leading blank tokens, no blank token follows.
pub proof fn lemma_blank_prefix_maximal(toks: Seq<&str>)
    ensures
        blank_prefix_len(toks) <= toks.len(),
        blank_prefix_len(toks.skip(blank_prefix_len(toks) as int)) == 0,
    decreases toks.len(),
{
    if toks.len() == 0 || !all_in_class(toks[0]@, CharClass::Whitespace) {
        assert(toks.skip(0) =~= toks);
    } else {
        lemma_blank_prefix_maximal(toks.drop_first());
        let k = blank_prefix_len(toks.drop_first()) as int;
        assert(toks.skip(1 + k) =~= toks.drop_first().skip(k));
    }
}

/// The index of the first token equal to `needle`.
pub open spec fn first_token(toks: Seq<&str>, needle: Seq<char>) -> Option<nat>
    decreases toks.len(),
{
    if toks.len() == 0 {
        None
    } else if toks[0]@ == needle {
        Some(0)
    } else {
        match first_token(toks.drop_first(), needle) {
            Some(i) => Some(i + 1),
            None => None,
        }
    }
}

/// The tokens joined by single spaces.
pub open spec fn join_tokens(toks: Seq<&str>) -> Seq<char>
    decreases toks.len(),
{
    if toks.len() == 0 {
        seq![]
    } else if toks.len() == 1 {
        toks[0]@
    } else {
        join_tokens(toks.drop_last()) + seq![' '] + toks.last()@
    }
}

/// The number of tokens shown when a token stream is displayed.
pub const DISPLAY_TOKENS: usize = 8;

/// Whether every character of `s` belongs to `class`.
pub fn all_chars_in(s: &str, class: CharClass) -> (r: bool)
    ensures
        r == all_in_class(s@, class),
{
    for c in iter: s.chars()
        invariant
            iter.seq() == s@,
            all_in_class(s@.take(iter.index() as int), class),
    {
        if !class.matches(c) {
            assert(s@[iter.index() as int] == c);
            return false;
        }
        assert(s@.take(iter.index() + 1) =~= s@.take(iter.index() as int).push(c));
    }
    assert(s@.take(s@.len() as int) =~= s@);
    true
}

/// Whether no character of `s` belongs to `class`.
pub fn no_char_in(s: &str, class: CharClass) -> (r: bool)
    ensures
        r == none_in_class(s@, class),
{
    for c in iter: s.chars()
        invariant
            iter.seq() == s@,
            none_in_class(s@.take(iter.index() as int), class),
    {
        if class.matches(c) {
            assert(s@[iter.index() as int] == c);
            return false;
        }
        assert(s@.take(iter.index() + 1) =~= s@.take(iter.index() as int).push(c));
    }
    assert(s@.take(s@.len() as int) =~= s@);
    true
}

/// Token-stream input: the tokens `start..end` of the slice it was made from.
#[derive(Debug)]
pub struct TokenStream<'a> {
    tokens: &'a [&'a str],
    start: usize,
    end: usize,
}

impl<'a> Clone for TokenStream<'a> {
    fn clone(&self) -> (r: Self)
        ensures
            r == *self,
    {
        *self
    }
}

impl<'a> Copy for TokenStream<'a> {

}

impl<'a> TokenStream<'a> {
    #[verifier::type_invariant]
    closed spec fn inv(self) -> bool {
        self.start <= self.end <= self.tokens@.len()
    }

    /// The remaining tokens.
    pub closed spec fn toks(self) -> Seq<&'a str> {
        self.tokens@.subrange(self.start as int, self.end as int)
    }

    /// The token index of the stream in the slice it was made from.
    pub closed spec fn offset(self) -> usize {
        self.start
    }

    closed spec fn advanced(self, n: int) -> Self {
        TokenStream { tokens: self.tokens, start: (self.start + n) as usize, end: self.end }
    }

    closed spec fn bounds_error() -> ErrorModel {
        ErrorModel::Custom("invalid input bounds while slicing token input"@)
    }

    closed spec fn partial_error() -> ErrorModel {
        ErrorModel::Custom("cannot consume partial token from token stream input"@)
    }

    /// A stream over all of `tokens`.
    pub fn new(tokens: &'a [&'a str]) -> (r: Self)
        ensures
            r.toks() == tokens@,
            r.offset() == 0,
    {
        assert(tokens@.subrange(0, tokens@.len() as int) =~= tokens@);
        TokenStream { tokens, start: 0, end: tokens.len() }
    }

    /// The remaining tokens.
    pub fn as_slice(self) -> (r: &'a [&'a str])
        ensures
            r@ == self.toks(),
    {
        proof {
            use_type_invariant(&self);
        }
        vstd::slice::slice_subrange(self.tokens, self.start, self.end)
    }

    /// The token index of the stream within the slice it was made from.
    pub fn position(self) -> (r: usize)
        ensures
            r == self.offset(),
    {
        self.start
    }

    pub(crate) closed spec fn spec_anchor_start(self) -> usize {
        self.start
    }

    fn partial_token_error() -> (r: ParseError)
        ensures
            r@ == Self::partial_error(),
    {
        ParseError::custom("cannot consume partial token from token stream input")
    }
}

impl<'a> Input<'a> for TokenStream<'a> {
    closed spec fn spec_len(self) -> nat {
        (self.end - self.start) as nat
    }

    closed spec fn spec_trim_start(self) -> Self {
        self.advanced(blank_prefix_len(self.toks()) as int)
    }

    closed spec fn spec_is_empty(self) -> bool {
        self.start == self.end
    }

    closed spec fn spec_display(self) -> Seq<char> {
        join_tokens(
            self.toks().take(
                if self.toks().len() < DISPLAY_TOKENS {
                    self.toks().len() as int
                } else {
                    DISPLAY_TOKENS as int
                },
            ),
        )
    }

    closed spec fn spec_strip_prefix(self, prefix: Seq<char>) -> Result<Option<Self>, ErrorModel> {
        if self.start < self.end && self.toks()[0]@ == prefix {
            Ok(Some(self.advanced(1)))
        } else {
            Ok(None)
        }
    }

    closed spec fn spec_find(self, needle: Seq<char>) -> Result<Option<Self>, ErrorModel> {
        match first_token(self.toks(), needle) {
            Some(i) => Ok(Some(self.advanced(i as int))),
            None => Ok(None),
        }
    }

    closed spec fn spec_slice_to(self, end: Self) -> Result<Self, ErrorModel> {
        if end.spec_len() > self.spec_len() {
            Err(Self::bounds_error())
        } else {
            let consumed = self.spec_len() - end.spec_len();
            Ok(TokenStream { tokens: self.tokens, start: self.start, end: (self.start + consumed) as usize })
        }
    }

    closed spec fn spec_take_char(self) -> Result<Option<(char, Self)>, ErrorModel> {
        if self.start == self.end {
            Ok(None)
        } else if self.toks()[0]@.len() == 0 {
            Err(ErrorModel::Custom("encountered empty token in token stream"@))
        } else if self.toks()[0]@.len() > 1 {
            Err(ErrorModel::Custom("cannot parse char from multi-character token stream element"@))
        } else {
            Ok(Some((self.toks()[0]@[0], self.advanced(1))))
        }
    }

    closed spec fn spec_take_while(self, class: CharClass) -> Result<(Seq<char>, Self), ErrorModel> {
        if self.start == self.end {
            Ok((seq![], self))
        } else if all_in_class(self.toks()[0]@, class) {
            Ok((self.toks()[0]@, self.advanced(1)))
        } else {
            Err(Self::partial_error())
        }
    }

    closed spec fn spec_take_till(self, class: CharClass) -> Result<(Seq<char>, Self), ErrorModel> {
        if self.start == self.end {
            Ok((seq![], self))
        } else if none_in_class(self.toks()[0]@, class) {
            Ok((self.toks()[0]@, self.advanced(1)))
        } else {
            Err(Self::partial_error())
        }
    }

    fn input_len(self) -> (r: usize) {
        proof {
            use_type_invariant(&self);
        }
        self.end - self.start
    }

    fn trim_start(self) -> (r: Self) {
        proof {
            use_type_invariant(&self);
        }
        let mut i = self.start;
        while i < self.end && all_chars_in(self.tokens[i], CharClass::Whitespace)
            invariant
                self.start <= i <= self.end <= self.tokens@.len(),
                blank_prefix_len(self.toks()) == (i - self.start) + blank_prefix_len(
                    self.tokens@.subrange(i as int, self.end as int),
                ),
            decreases self.end - i,
        {
            assert(self.tokens@.subrange(i + 1, self.end as int) =~= self.tokens@.subrange(
                i as int,
                self.end as int,
            ).drop_first());
            i = i + 1;
        }
        assert(blank_prefix_len(self.tokens@.subrange(i as int, self.end as int)) == 0) by {
            if i < self.end {
                assert(self.tokens@.subrange(i as int, self.end as int)[0] == self.tokens@[i as int]);
            }
        }
        TokenStream { tokens: self.tokens, start: i, end: self.end }
    }

    fn is_empty(self) -> (r: bool) {
        self.start == self.end
    }

    fn display(self) -> (r: String) {
        proof {
            use_type_invariant(&self);
        }
        let n = if self.end - self.start < DISPLAY_TOKENS {
            self.end - self.start
        } else {
            DISPLAY_TOKENS
        };
        let ghost shown = self.toks().take(n as int);
        let mut out = String::new();
        let mut k: usize = 0;
        while k < n
            invariant
                k <= n <= self.end - self.start,
                self.start <= self.end <= self.tokens@.len(),
                shown == self.toks().take(n as int),
                out@ == join_tokens(shown.take(k as int)),
            decreases n - k,
        {
            let ghost before = out@;
            if k > 0 {
                out.append(" ");
            }
            let t: &str = self.tokens[self.start + k];
            out.append(t);
            proof {
                reveal_strlit(" ");
                assert(shown[k as int] == t);
                assert(shown.take(k + 1).drop_last() =~= shown.take(k as int));
                assert(shown.take(k + 1).last() == t);
                if k == 0 {
                    assert(shown.take(1) =~= seq![t]);
                }
            }
            k = k + 1;
        }
        assert(shown.take(n as int) =~= shown);
        out
    }

    fn strip_prefix(self, prefix: &str) -> (r: ParseResult<Option<Self>>) {
        proof {
            use_type_invariant(&self);
        }
        if self.start < self.end && str_eq(self.tokens[self.start], prefix) {
            Ok(Some(TokenStream { tokens: self.tokens, start: self.start + 1, end: self.end }))
        } else {
            Ok(None)
        }
    }

    fn find(self, needle: &str) -> (r: ParseResult<Option<Self>>) {
        proof {
            use_type_invariant(&self);
        }
        let mut i = self.start;
        while i < self.end
            invariant
                self.start <= i <= self.end <= self.tokens@.len(),
                first_token(self.toks(), needle@) == match first_token(
                    self.tokens@.subrange(i as int, self.end as int),
                    needle@,
                ) {
                    Some(j) => Some((j + (i - self.start)) as nat),
                    None => None::<nat>,
                },
            decreases self.end - i,
        {
            if str_eq(self.tokens[i], needle) {
                return Ok(Some(TokenStream { tokens: self.tokens, start: i, end: self.end }));
            }
            assert(self.tokens@.subrange(i + 1, self.end as int) =~= self.tokens@.subrange(
                i as int,
                self.end as int,
            ).drop_first());
            i = i + 1;
        }
        Ok(None)
    }

    fn slice_to(self, end: Self) -> (r: ParseResult<Self>) {
        proof {
            use_type_invariant(&self);
            use_type_invariant(&end);
        }
        let len = self.end - self.start;
        let end_len = end.end - end.start;
        if end_len > len {
            return Err(ParseError::custom("invalid input bounds while slicing token input"));
        }
        let consumed = len - end_len;
        Ok(TokenStream { tokens: self.tokens, start: self.start, end: self.start + consumed })
    }

    fn take_char(self) -> (r: ParseResult<Option<(char, Self)>>) {
        proof {
            use_type_invariant(&self);
        }
        if self.start == self.end {
            return Ok(None);
        }
        let t: &str = self.tokens[self.start];
        let n = t.unicode_len();
        if n == 0 {
            return Err(ParseError::custom("encountered empty token in token stream"));
        }
        if n > 1 {
            return Err(
                ParseError::custom("cannot parse char from multi-character token stream element"),
            );
        }
        let c = t.get_char(0);
        Ok(Some((c, TokenStream { tokens: self.tokens, start: self.start + 1, end: self.end })))
    }

    fn take_while(self, class: CharClass) -> (r: ParseResult<(&'a str, Self)>) {
        proof {
            use_type_invariant(&self);
        }
        if self.start == self.end {
            proof {
                reveal_strlit("");
                assert(""@ =~= Seq::<char>::empty());
            }
            return Ok(("", self));
        }
        let t: &'a str = self.tokens[self.start];
        assert(self.toks()[0] == t);
        if all_chars_in(t, class) {
            Ok((t, TokenStream { tokens: self.tokens, start: self.start + 1, end: self.end }))
        } else {
            Err(Self::partial_token_error())
        }
    }

    fn take_till(self, class: CharClass) -> (r: ParseResult<(&'a str, Self)>) {
        proof {
            use_type_invariant(&self);
        }
        if self.start == self.end {
            proof {
                reveal_strlit("");
                assert(""@ =~= Seq::<char>::empty());
            }
            return Ok(("", self));
        }
        let t: &'a str = self.tokens[self.start];
        assert(self.toks()[0] == t);
        if no_char_in(t, class) {
            Ok((t, TokenStream { tokens: self.tokens, start: self.start + 1, end: self.end }))
        } else {
            Err(Self::partial_token_error())
        }
    }
}

impl<'a> TokenStream<'a> {
    /// Whether the stream is well formed: a range within its tokens (every value of the type
    /// is).
    pub closed spec fn wf(self) -> bool {
        self.inv()
    }

    /// Skipping blank tokens twice is the same as skipping them once.
    pub proof fn law_trim_start_idempotent(self)
        requires
            self.wf(),
        ensures
            self.spec_trim_start().spec_trim_start() == self.spec_trim_start(),
    {
        let k = blank_prefix_len(self.toks()) as int;
        lemma_blank_prefix_maximal(self.toks());
        let t = self.spec_trim_start();
        assert(t.toks() =~= self.toks().skip(k));
    }
}

} // verus!
