//! Parse errors, source spans and error rendering.
use std::borrow::Cow;
use std::ops::Range;
use vstd::prelude::*;
use vstd::string::*;
use vstd::utf8::*;

use crate::text::{repeat_chars, repeat_str, cow_as_str, cow_borrowed, cow_owned, decimal_chars, str_eq, decimal_string, lemma_chars_of_bytes, lemma_first_scalar_len};

verus! {

broadcast use vstd::utf8::encode_utf8_decode_utf8;

/// Default maximum character count for rendering input snippets in errors.
pub const DEFAULT_INPUT_PREVIEW: usize = 80;

/// The first `max_chars` characters of `input`, with `...` appended when something was cut.
pub open spec fn spec_preview(input: Seq<char>, max_chars: nat) -> Seq<char> {
    if max_chars == 0 {
        seq![]
    } else if input.len() <= max_chars {
        input
    } else {
        input.take(max_chars as int) + seq!['.', '.', '.']
    }
}

/// Truncate an input snippet to at most `max_chars` Unicode scalar values.
pub fn preview_input(input: &str, max_chars: usize) -> (r: String)
    ensures
        r@ == spec_preview(input@, max_chars as nat),
{
    if max_chars == 0 {
        return String::new();
    }
    let n = input.unicode_len();
    if n <= max_chars {
        input.to_owned()
    } else {
        let mut preview = input.substring_char(0, max_chars).to_owned();
        proof {
            reveal_strlit("...");
        }
        preview.append("...");
        assert(input@.subrange(0, max_chars as int) =~= input@.take(max_chars as int));
        preview
    }
}

/// A span in the input source: the half-open range `[start, end)`.
#[derive(Debug, Clone, Copy, PartialEq, Eq, Hash, PartialOrd, Ord, Default)]
pub struct SourceSpan {
    pub start: usize,
    pub end: usize,
}

impl SourceSpan {
    pub open spec fn spec_new(start: usize, end: usize) -> SourceSpan {
        if end < start {
            SourceSpan { start, end: start }
        } else {
            SourceSpan { start, end }
        }
    }

    /// A span from `start` to `end`; an `end` before `start` is moved up to `start`.
    pub fn new(start: usize, end: usize) -> (r: Self)
        ensures
            r == Self::spec_new(start, end),
    {
        if end < start {
            Self { start, end: start }
        } else {
            Self { start, end }
        }
    }

    pub open spec fn spec_from_start_len(start: usize, len: usize) -> SourceSpan {
        Self::spec_new(start, if start + len > usize::MAX { usize::MAX } else { (start + len) as usize })
    }

    /// A span of `len` units starting at `start`, saturating at `usize::MAX`.
    pub fn from_start_len(start: usize, len: usize) -> (r: Self)
        ensures
            r == Self::spec_from_start_len(start, len),
    {
        Self::new(start, start.saturating_add(len))
    }

    /// The span of a range.
    pub fn range(range: Range<usize>) -> (r: Self)
        ensures
            r == Self::spec_new(range.start, range.end),
    {
        Self::new(range.start, range.end)
    }

    /// The empty span at `offset`.
    pub fn point(offset: usize) -> (r: Self)
        ensures
            r == (SourceSpan { start: offset, end: offset }),
    {
        Self { start: offset, end: offset }
    }

    /// The number of units covered, zero when `end` is before `start`.
    pub fn len(self) -> (r: usize)
        ensures
            r == (if self.end >= self.start { self.end - self.start } else { 0 }),
    {
        self.end.saturating_sub(self.start)
    }

    /// Whether the span is a single point.
    pub fn is_empty(self) -> (r: bool)
        ensures
            r == (self.start == self.end),
    {
        self.start == self.end
    }

    /// The text of the span in messages: `offset N` or `offsets N..M`.
    pub open spec fn spec_text(self) -> Seq<char> {
        if self.start == self.end {
            "offset "@ + decimal_chars(self.start as nat)
        } else {
            "offsets "@ + decimal_chars(self.start as nat) + ".."@ + decimal_chars(
                self.end as nat,
            )
        }
    }

    /// Renders the span as its `Display` text would read.
    pub fn display_string(self) -> (r: String)
        ensures
            r@ == self.spec_text(),
    {
        if self.is_empty() {
            let mut s = "offset ".to_owned();
            s.append(decimal_string(self.start).as_str());
            s
        } else {
            let mut s = "offsets ".to_owned();
            s.append(decimal_string(self.start).as_str());
            s.append("..");
            s.append(decimal_string(self.end).as_str());
            s
        }
    }

    /// Convert the start offset into 1-based line/column using `source`.
    pub fn line_col(self, source: &str) -> (r: (usize, usize))
        requires
            source@.len() < usize::MAX,
        ensures
            (r.0 as nat, r.1 as nat) == spec_line_col(
                source@.take(spec_char_offset(source, self.start) as int),
            ),
    {
        let (_, prefix) = char_offset(source, self.start);
        count_lines_cols(prefix)
    }
}

/// The number of characters of `source` before byte `offset`, after clamping the offset to
/// the text and down to a char boundary.
pub open spec fn spec_char_offset(source: &str, offset: usize) -> nat {
    decode_utf8(
        source.spec_bytes().take(
            spec_clamp_to_char_boundary(
                source.spec_bytes(),
                min_usize(offset, source.spec_bytes().len() as usize),
            ),
        ),
    ).len()
}

fn char_offset<'b>(source: &'b str, offset: usize) -> (r: (usize, &'b str))
    ensures
        r.0 == spec_char_offset(source, offset),
        r.0 <= source@.len(),
        r.1@ == source@.take(r.0 as int),
{
    let bytes = source.as_bytes();
    let start = if offset < bytes.len() {
        offset
    } else {
        bytes.len()
    };
    let safe_start = clamp_to_char_boundary(source, start);
    let (prefix, _) = source.split_at(safe_start);
    proof {
        lemma_chars_of_bytes(prefix, bytes@.take(safe_start as int));
        assert(bytes@.subrange(0, safe_start as int) =~= bytes@.take(safe_start as int));
        encode_utf8_valid_utf8(source@);
        decode_utf8_split(bytes@, safe_start as int);
        assert(source@ =~= prefix@ + decode_utf8(bytes@.subrange(safe_start as int, bytes@.len() as int)));
        assert(source@.take(prefix@.len() as int) =~= prefix@);
    }
    (prefix.unicode_len(), prefix)
}

impl From<usize> for SourceSpan {
    fn from(offset: usize) -> (r: Self) {
        Self::point(offset)
    }
}

impl vstd::std_specs::convert::FromSpecImpl<usize> for SourceSpan {
    open spec fn obeys_from_spec() -> bool {
        true
    }

    open spec fn from_spec(offset: usize) -> SourceSpan {
        SourceSpan { start: offset, end: offset }
    }
}

impl From<Range<usize>> for SourceSpan {
    fn from(range: Range<usize>) -> (r: Self) {
        Self::range(range)
    }
}

impl vstd::std_specs::convert::FromSpecImpl<Range<usize>> for SourceSpan {
    open spec fn obeys_from_spec() -> bool {
        true
    }

    open spec fn from_spec(range: Range<usize>) -> SourceSpan {
        SourceSpan::spec_new(range.start, range.end)
    }
}

impl PartialEq<Range<usize>> for SourceSpan {
    fn eq(&self, other: &Range<usize>) -> (r: bool) {
        self.start == other.start && self.end == other.end
    }
}

impl vstd::std_specs::cmp::PartialEqSpecImpl<Range<usize>> for SourceSpan {
    open spec fn obeys_eq_spec() -> bool {
        true
    }

    open spec fn eq_spec(&self, other: &Range<usize>) -> bool {
        self.start == other.start && self.end == other.end
    }
}

pub open spec fn min_usize(a: usize, b: usize) -> usize {
    if a < b {
        a
    } else {
        b
    }
}

proof fn lemma_decode_len_le(b: Seq<u8>)
    requires
        valid_utf8(b),
    ensures
        decode_utf8(b).len() <= b.len(),
    decreases b.len(),
{
    if b.len() > 0 {
        lemma_first_scalar_len(b);
        lemma_decode_len_le(pop_first_scalar(b));
    }
}

/// The 1-based line and column reached after reading `chars`.
pub open spec fn spec_line_col(chars: Seq<char>) -> (nat, nat)
    decreases chars.len(),
{
    if chars.len() == 0 {
        (1, 1)
    } else {
        let (line, col) = spec_line_col(chars.drop_last());
        if chars.last() == '\n' {
            (line + 1, 1)
        } else {
            (line, col + 1)
        }
    }
}

proof fn lemma_line_col_bound(chars: Seq<char>)
    ensures
        1 <= spec_line_col(chars).0 <= chars.len() + 1,
        1 <= spec_line_col(chars).1 <= chars.len() + 1,
    decreases chars.len(),
{
    if chars.len() > 0 {
        lemma_line_col_bound(chars.drop_last());
    }
}

fn count_lines_cols(prefix: &str) -> (r: (usize, usize))
    requires
        prefix@.len() < usize::MAX,
    ensures
        (r.0 as nat, r.1 as nat) == spec_line_col(prefix@),
{
    let mut line: usize = 1;
    let mut col: usize = 1;
    for ch in iter: prefix.chars()
        invariant
            iter.seq() == prefix@,
            prefix@.len() < usize::MAX,
            (line as nat, col as nat) == spec_line_col(prefix@.take(iter.index() as int)),
    {
        proof {
            let i = iter.index();
            lemma_line_col_bound(prefix@.take(i as int));
            assert(prefix@.take(i + 1).drop_last() =~= prefix@.take(i as int));
        }
        if ch == '\n' {
            line = line + 1;
            col = 1;
        } else {
            col = col + 1;
        }
    }
    assert(prefix@.take(prefix@.len() as int) =~= prefix@);
    (line, col)
}

/// The largest char boundary of `bytes` at or below `offset` (or zero).
pub open spec fn spec_clamp_to_char_boundary(bytes: Seq<u8>, offset: usize) -> int
    decreases offset,
{
    if offset > 0 && !is_char_boundary(bytes, offset as int) {
        spec_clamp_to_char_boundary(bytes, (offset - 1) as usize)
    } else {
        offset as int
    }
}

proof fn lemma_clamp(bytes: Seq<u8>, offset: usize)
    requires
        valid_utf8(bytes),
    ensures
        0 <= spec_clamp_to_char_boundary(bytes, offset) <= offset,
        is_char_boundary(bytes, spec_clamp_to_char_boundary(bytes, offset)),
        forall|j: int|
            spec_clamp_to_char_boundary(bytes, offset) < j <= offset ==> !is_char_boundary(
                bytes,
                j,
            ),
    decreases offset,
{
    if offset > 0 && !is_char_boundary(bytes, offset as int) {
        lemma_clamp(bytes, (offset - 1) as usize);
    }
}

/// Moves `offset` down to the nearest char boundary of `source`.
pub fn clamp_to_char_boundary(source: &str, offset: usize) -> (r: usize)
    ensures
        r == spec_clamp_to_char_boundary(source.spec_bytes(), offset),
        r <= offset,
        is_char_boundary(source.spec_bytes(), r as int),
{
    proof {
        encode_utf8_valid_utf8(source@);
        lemma_clamp(source.spec_bytes(), offset);
    }
    let ghost original = offset;
    let mut offset = offset;
    while offset > 0 && !source.is_char_boundary(offset)
        invariant
            spec_clamp_to_char_boundary(source.spec_bytes(), offset) == spec_clamp_to_char_boundary(
                source.spec_bytes(),
                original,
            ),
            valid_utf8(source.spec_bytes()),
        decreases offset,
    {
        offset = offset - 1;
    }
    offset
}


/// The result of a parsing operation.
pub type ParseResult<T> = Result<T, ParseError>;

/// Errors that can occur during parsing.
///
/// Recoverable errors say that a parser did not match and may be caught by backtracking
/// combinators (`Option`, `Or`, the repetitions). Fatal errors ([`ParseError::Fatal`]) say that
/// parsing cannot go on; backtracking combinators hand them on unchanged.
#[derive(Debug, PartialEq)]
pub enum ParseError {
    /// The parser expected a specific token but found something else; `found` is truncated
    /// to [`DEFAULT_INPUT_PREVIEW`] characters by [`ParseError::unexpected_token`].
    UnexpectedToken { expected: &'static str, found: String },
    /// The parser expected one of several tokens.
    ExpectedOneOf { expected: Vec<&'static str>, found: String },
    /// The input ended unexpectedly while parsing.
    UnexpectedEOF,
    /// A custom error message.
    Custom(Cow<'static, str>),
    /// A structural error that backtracking combinators do not recover from.
    Fatal(Box<ParseError>),
    /// Another parse error located at a source span.
    WithSpan { span: SourceSpan, source: Box<ParseError> },
}

/// The mathematical content of a [`ParseError`]: every text taken as its characters.
pub enum ErrorModel {
    UnexpectedToken { expected: Seq<char>, found: Seq<char> },
    ExpectedOneOf { expected: Seq<Seq<char>>, found: Seq<char> },
    UnexpectedEOF,
    Custom(Seq<char>),
    Fatal(Box<ErrorModel>),
    WithSpan { span: SourceSpan, source: Box<ErrorModel> },
}

pub open spec fn str_views(v: Seq<&'static str>) -> Seq<Seq<char>> {
    v.map_values(|s: &'static str| s@)
}

impl View for ParseError {
    type V = ErrorModel;

    open spec fn view(&self) -> ErrorModel
        decreases self,
    {
        match self {
            ParseError::UnexpectedToken { expected, found } => ErrorModel::UnexpectedToken {
                expected: expected@,
                found: found@,
            },
            ParseError::ExpectedOneOf { expected, found } => ErrorModel::ExpectedOneOf {
                expected: str_views(expected@),
                found: found@,
            },
            ParseError::UnexpectedEOF => ErrorModel::UnexpectedEOF,
            ParseError::Custom(msg) => ErrorModel::Custom(msg@),
            ParseError::Fatal(source) => ErrorModel::Fatal(Box::new((**source).view())),
            ParseError::WithSpan { span, source } => ErrorModel::WithSpan {
                span: *span,
                source: Box::new((**source).view()),
            },
        }
    }
}

impl ErrorModel {
    pub open spec fn custom(msg: Seq<char>) -> ErrorModel {
        ErrorModel::Custom(msg)
    }

    /// Whether the error is fatal, looking through span wrappers.
    pub open spec fn is_fatal(self) -> bool
        decreases self,
    {
        match self {
            ErrorModel::Fatal(_) => true,
            ErrorModel::WithSpan { source, .. } => source.is_fatal(),
            _ => false,
        }
    }

    /// The error promoted to fatal; a fatal error is left as it is.
    pub open spec fn into_fatal(self) -> ErrorModel {
        match self {
            ErrorModel::Fatal(_) => self,
            _ => ErrorModel::Fatal(Box::new(self)),
        }
    }

    /// The error with `span` attached, unless it already carries a span (looking through
    /// fatal wrappers), which is then kept.
    pub open spec fn with_span(self, span: SourceSpan) -> ErrorModel {
        if self.span() is Some {
            self
        } else {
            ErrorModel::WithSpan { span, source: Box::new(self) }
        }
    }

    /// The span of the error, looking through fatal wrappers.
    pub open spec fn span(self) -> Option<SourceSpan>
        decreases self,
    {
        match self {
            ErrorModel::WithSpan { span, .. } => Some(span),
            ErrorModel::Fatal(source) => source.span(),
            _ => None,
        }
    }

    /// The innermost error that is neither a span nor a fatal wrapper.
    pub open spec fn root_cause(self) -> ErrorModel
        decreases self,
    {
        match self {
            ErrorModel::WithSpan { source, .. } => source.root_cause(),
            ErrorModel::Fatal(source) => source.root_cause(),
            _ => self,
        }
    }

    /// Of `self` and `other`, the error located farther in the input: the later start, then
    /// the later end; `other` on a tie or when neither has a span; a spanned error over an
    /// unspanned one.
    pub open spec fn farthest(self, other: ErrorModel) -> ErrorModel {
        match (self.span(), other.span()) {
            (Some(left), Some(right)) => {
                if right.start > left.start {
                    other
                } else if right.start < left.start {
                    self
                } else if right.end > left.end {
                    other
                } else if right.end < left.end {
                    self
                } else {
                    other
                }
            },
            (Some(_), None) => self,
            (None, _) => other,
        }
    }

    /// The text that the error's `Display` implementation writes.
    pub open spec fn text(self) -> Seq<char>
        decreases self,
    {
        match self {
            ErrorModel::UnexpectedToken { expected, found } => "unexpected token: expected '"@
                + expected + "', found '"@ + spec_preview(found, DEFAULT_INPUT_PREVIEW as nat)
                + "'"@,
            ErrorModel::ExpectedOneOf { expected, found } => "unexpected token: expected one of ["@
                + quoted_list(expected) + "], found '"@ + spec_preview(
                found,
                DEFAULT_INPUT_PREVIEW as nat,
            ) + "'"@,
            ErrorModel::UnexpectedEOF => "unexpected end of input"@,
            ErrorModel::Custom(msg) => msg,
            ErrorModel::Fatal(source) => "fatal: "@ + source.text(),
            ErrorModel::WithSpan { span, source } => source.text() + " at "@ + span.spec_text(),
        }
    }
}

impl Clone for ParseError {
    fn clone(&self) -> (r: Self)
        ensures
            r@ == self@,
        decreases self,
    {
        match self {
            ParseError::UnexpectedToken { expected, found } => ParseError::UnexpectedToken {
                expected: *expected,
                found: found.clone(),
            },
            ParseError::ExpectedOneOf { expected, found } => ParseError::ExpectedOneOf {
                expected: copy_tokens(expected),
                found: found.clone(),
            },
            ParseError::UnexpectedEOF => ParseError::UnexpectedEOF,
            ParseError::Custom(msg) => ParseError::Custom(cow_owned(cow_as_str(msg).to_owned())),
            ParseError::Fatal(source) => ParseError::Fatal(Box::new((**source).clone())),
            ParseError::WithSpan { span, source } => ParseError::WithSpan {
                span: *span,
                source: Box::new((**source).clone()),
            },
        }
    }
}

/// A copy of a list of static tokens.
pub fn copy_tokens(v: &Vec<&'static str>) -> (r: Vec<&'static str>)
    ensures
        r@ == v@,
{
    let mut out: Vec<&'static str> = Vec::new();
    let mut i: usize = 0;
    while i < v.len()
        invariant
            i <= v@.len(),
            out@ == v@.take(i as int),
        decreases v@.len() - i,
    {
        out.push(v[i]);
        i = i + 1;
        assert(out@ =~= v@.take(i as int));
    }
    assert(v@.take(v@.len() as int) =~= v@);
    out
}

/// The tokens each in single quotes, joined by `, `.
pub open spec fn quoted_list(tokens: Seq<Seq<char>>) -> Seq<char>
    decreases tokens.len(),
{
    if tokens.len() == 0 {
        seq![]
    } else if tokens.len() == 1 {
        "'"@ + tokens[0] + "'"@
    } else {
        quoted_list(tokens.drop_last()) + ", '"@ + tokens.last() + "'"@
    }
}


/// `tokens` with every repeated entry after its first occurrence removed.
pub open spec fn dedup_chars(tokens: Seq<Seq<char>>) -> Seq<Seq<char>>
    decreases tokens.len(),
{
    if tokens.len() == 0 {
        seq![]
    } else {
        let rest = dedup_chars(tokens.drop_last());
        if rest.contains(tokens.last()) {
            rest
        } else {
            rest.push(tokens.last())
        }
    }
}

pub proof fn lemma_dedup_properties(tokens: Seq<Seq<char>>)
    ensures
        forall|t: Seq<char>| dedup_chars(tokens).contains(t) <==> tokens.contains(t),
        dedup_chars(tokens).no_duplicates(),
    decreases tokens.len(),
{
    if tokens.len() > 0 {
        lemma_dedup_properties(tokens.drop_last());
        let rest = dedup_chars(tokens.drop_last());
        assert forall|t: Seq<char>| tokens.contains(t) <== tokens.drop_last().contains(t) by {
            if tokens.drop_last().contains(t) {
                let k = choose|k: int| 0 <= k < tokens.drop_last().len() && tokens.drop_last()[k] == t;
                assert(tokens[k] == t);
            }
        }
        assert forall|t: Seq<char>| tokens.contains(t) ==> (tokens.drop_last().contains(t) || t == tokens.last()) by {
            if tokens.contains(t) {
                let k = choose|k: int| 0 <= k < tokens.len() && tokens[k] == t;
                if k < tokens.len() - 1 {
                    assert(tokens.drop_last()[k] == t);
                }
            }
        }
        if !rest.contains(tokens.last()) {
            assert forall|t: Seq<char>| rest.push(tokens.last()).contains(t) <==> (rest.contains(t) || t == tokens.last()) by {
                if rest.push(tokens.last()).contains(t) {
                    let k = choose|k: int| 0 <= k < rest.len() + 1 && rest.push(tokens.last())[k] == t;
                    if k < rest.len() {
                        assert(rest[k] == t);
                    }
                }
                if rest.contains(t) {
                    let k = choose|k: int| 0 <= k < rest.len() && rest[k] == t;
                    assert(rest.push(tokens.last())[k] == t);
                }
                if t == tokens.last() {
                    assert(rest.push(tokens.last())[rest.len() as int] == t);
                }
            }
        }
    }
}

impl ParseError {
    /// Create a custom parse error from a static message.
    pub fn custom(msg: &'static str) -> (r: Self)
        ensures
            r@ == ErrorModel::Custom(msg@),
    {
        ParseError::Custom(cow_borrowed(msg))
    }

    /// Create a custom parse error from an owned message.
    pub fn custom_owned(msg: String) -> (r: Self)
        ensures
            r@ == ErrorModel::Custom(msg@),
    {
        ParseError::Custom(cow_owned(msg))
    }

    /// Create a custom parse error at a specific source span.
    pub fn custom_at(msg: &'static str, span: SourceSpan) -> (r: Self)
        ensures
            r@ == ErrorModel::Custom(msg@).with_span(span),
    {
        Self::custom(msg).with_span(span)
    }

    /// An [`ParseError::UnexpectedToken`] error whose `found` snippet is truncated to
    /// [`DEFAULT_INPUT_PREVIEW`] characters.
    pub fn unexpected_token(expected: &'static str, found: &str) -> (r: Self)
        ensures
            r@ == (ErrorModel::UnexpectedToken {
                expected: expected@,
                found: spec_preview(found@, DEFAULT_INPUT_PREVIEW as nat),
            }),
    {
        ParseError::UnexpectedToken { expected, found: preview_input(found, DEFAULT_INPUT_PREVIEW) }
    }

    /// An [`ParseError::ExpectedOneOf`] error listing each expected token once (in the order
    /// of first occurrence) with a truncated `found` snippet.
    pub fn expected_one_of(expected: &[&'static str], found: &str) -> (r: Self)
        ensures
            r@ == (ErrorModel::ExpectedOneOf {
                expected: dedup_chars(str_views(expected@)),
                found: spec_preview(found@, DEFAULT_INPUT_PREVIEW as nat),
            }),
    {
        let mut deduped: Vec<&'static str> = Vec::new();
        let mut i: usize = 0;
        while i < expected.len()
            invariant
                i <= expected@.len(),
                str_views(deduped@) == dedup_chars(str_views(expected@.take(i as int))),
            decreases expected@.len() - i,
        {
            let token = expected[i];
            let mut seen = false;
            let mut j: usize = 0;
            while j < deduped.len()
                invariant
                    j <= deduped@.len(),
                    seen <==> str_views(deduped@).take(j as int).contains(token@),
                decreases deduped@.len() - j,
            {
                let eq = str_eq(deduped[j], token);
                if eq {
                    seen = true;
                }
                proof {
                    let sv = str_views(deduped@);
                    assert(sv[j as int] == deduped@[j as int]@);
                    let t1 = sv.take(j as int);
                    let t2 = sv.take(j + 1);
                    assert(t2 =~= t1.push(sv[j as int]));
                    if eq {
                        assert(t2[j as int] == token@);
                    }
                    if t1.contains(token@) {
                        let k = choose|k: int| 0 <= k < t1.len() && t1[k] == token@;
                        assert(t2[k] == token@);
                    }
                    if t2.contains(token@) {
                        let k = choose|k: int| 0 <= k < t2.len() && t2[k] == token@;
                        if k < j {
                            assert(t1[k] == token@);
                        }
                    }
                }
                j = j + 1;
            }
            let ghost before = deduped@;
            proof {
                assert(str_views(deduped@).take(deduped@.len() as int) =~= str_views(deduped@));
                assert(str_views(expected@.take(i + 1)).drop_last() =~= str_views(expected@.take(i as int)));
                assert(str_views(expected@.take(i + 1)).last() == token@);
            }
            if !seen {
                deduped.push(token);
                assert(str_views(deduped@) =~= str_views(before).push(token@));
            }
            i = i + 1;
        }
        assert(expected@.take(expected@.len() as int) =~= expected@);
        ParseError::ExpectedOneOf { expected: deduped, found: preview_input(found, DEFAULT_INPUT_PREVIEW) }
    }

    /// A fatal error around a custom message.
    pub fn fatal(msg: &'static str) -> (r: Self)
        ensures
            r@ == ErrorModel::Fatal(Box::new(ErrorModel::Custom(msg@))),
    {
        ParseError::Fatal(Box::new(ParseError::custom(msg)))
    }

    /// A fatal error around an owned custom message.
    pub fn fatal_owned(msg: String) -> (r: Self)
        ensures
            r@ == ErrorModel::Fatal(Box::new(ErrorModel::Custom(msg@))),
    {
        ParseError::Fatal(Box::new(ParseError::custom_owned(msg)))
    }

    /// Promote any error into a fatal error if it isn't already one.
    pub fn into_fatal(self) -> (r: Self)
        ensures
            r@ == self@.into_fatal(),
    {
        match self {
            ParseError::Fatal(_) => self,
            inner => ParseError::Fatal(Box::new(inner)),
        }
    }

    /// Returns `true` when this error (or any span wrapper around it) is fatal.
    pub fn is_fatal(&self) -> (r: bool)
        ensures
            r == self@.is_fatal(),
        decreases self,
    {
        match self {
            ParseError::Fatal(_) => true,
            ParseError::WithSpan { source, .. } => source.is_fatal(),
            _ => false,
        }
    }

    /// Attach a span to this error if it does not already carry one.
    pub fn with_span(self, span: SourceSpan) -> (r: Self)
        ensures
            r@ == self@.with_span(span),
    {
        if self.span().is_some() {
            self
        } else {
            ParseError::WithSpan { span, source: Box::new(self) }
        }
    }

    /// Alias for [`ParseError::with_span`].
    pub fn at(self, span: SourceSpan) -> (r: Self)
        ensures
            r@ == self@.with_span(span),
    {
        self.with_span(span)
    }

    /// The span associated with this error, looking through fatal wrappers.
    pub fn span(&self) -> (r: Option<SourceSpan>)
        ensures
            r == self@.span(),
        decreases self,
    {
        match self {
            ParseError::WithSpan { span, .. } => Some(*span),
            ParseError::Fatal(source) => source.span(),
            _ => None,
        }
    }

    /// Chooses whichever error occurred farther in the input (see [`ErrorModel::farthest`]).
    pub fn farthest(self, other: ParseError) -> (r: ParseError)
        ensures
            r@ == self@.farthest(other@),
    {
        match (self.span(), other.span()) {
            (Some(left), Some(right)) => {
                if right.start > left.start {
                    other
                } else if right.start < left.start {
                    self
                } else if right.end > left.end {
                    other
                } else if right.end < left.end {
                    self
                } else {
                    other
                }
            },
            (Some(_), None) => self,
            (None, _) => other,
        }
    }

    /// Returns the innermost non-wrapper error.
    pub fn root_cause(&self) -> (r: &ParseError)
        ensures
            r@ == self@.root_cause(),
        decreases self,
    {
        match self {
            ParseError::WithSpan { source, .. } => source.root_cause(),
            ParseError::Fatal(source) => source.root_cause(),
            _ => self,
        }
    }

    /// Renders the error as its `Display` text would read.
    pub fn display_string(&self) -> (r: String)
        ensures
            r@ == self@.text(),
        decreases self,
    {
        match self {
            ParseError::UnexpectedToken { expected, found } => {
                let mut s = "unexpected token: expected '".to_owned();
                s.append(expected);
                s.append("', found '");
                s.append(preview_input(found.as_str(), DEFAULT_INPUT_PREVIEW).as_str());
                s.append("'");
                s
            },
            ParseError::ExpectedOneOf { expected, found } => {
                let mut s = "unexpected token: expected one of [".to_owned();
                s.append(quote_tokens(expected).as_str());
                s.append("], found '");
                s.append(preview_input(found.as_str(), DEFAULT_INPUT_PREVIEW).as_str());
                s.append("'");
                s
            },
            ParseError::UnexpectedEOF => "unexpected end of input".to_owned(),
            ParseError::Custom(msg) => cow_as_str(msg).to_owned(),
            ParseError::Fatal(source) => {
                let mut s = "fatal: ".to_owned();
                s.append(source.display_string().as_str());
                s
            },
            ParseError::WithSpan { span, source } => {
                let mut s = source.display_string();
                s.append(" at ");
                s.append(span.display_string().as_str());
                s
            },
        }
    }
}

fn quote_tokens(tokens: &Vec<&'static str>) -> (r: String)
    ensures
        r@ == quoted_list(str_views(tokens@)),
{
    let mut s = String::new();
    let mut i: usize = 0;
    while i < tokens.len()
        invariant
            i <= tokens@.len(),
            s@ == quoted_list(str_views(tokens@.take(i as int))),
        decreases tokens@.len() - i,
    {
        if i > 0 {
            s.append(", ");
        }
        s.append("'");
        s.append(tokens[i]);
        s.append("'");
        proof {
            reveal_strlit(", ");
            reveal_strlit("'");
            reveal_strlit(", '");
            let tv = str_views(tokens@.take(i + 1));
            assert(tv.drop_last() =~= str_views(tokens@.take(i as int)));
            assert(tv.last() == tokens@[i as int]@);
            if i == 0 {
                assert(str_views(tokens@.take(0)) =~= Seq::<Seq<char>>::empty());
                assert(s@ =~= "'"@ + tv[0] + "'"@);
            }
        }
        i = i + 1;
    }
    assert(tokens@.take(tokens@.len() as int) =~= tokens@);
    s
}


/// The index of the first character of the line that holds character `i`.
pub open spec fn line_start_index(chars: Seq<char>, i: int) -> int
    decreases i,
{
    if i <= 0 {
        0
    } else if chars[i - 1] == '\n' {
        i
    } else {
        line_start_index(chars, i - 1)
    }
}

/// The index of the newline that ends the line holding character `i`, or the length.
pub open spec fn line_end_index(chars: Seq<char>, i: int) -> int
    decreases chars.len() - i,
{
    if i >= chars.len() {
        chars.len() as int
    } else if chars[i] == '\n' {
        i
    } else {
        line_end_index(chars, i + 1)
    }
}

proof fn lemma_line_start(chars: Seq<char>, i: int)
    requires
        0 <= i <= chars.len(),
    ensures
        0 <= line_start_index(chars, i) <= i,
        forall|k: int| line_start_index(chars, i) <= k < i ==> chars[k] != '\n',
        line_start_index(chars, i) > 0 ==> chars[line_start_index(chars, i) - 1] == '\n',
    decreases i,
{
    if i > 0 && chars[i - 1] != '\n' {
        lemma_line_start(chars, i - 1);
    }
}

proof fn lemma_line_end(chars: Seq<char>, i: int)
    requires
        0 <= i <= chars.len(),
    ensures
        i <= line_end_index(chars, i) <= chars.len(),
        forall|k: int| i <= k < line_end_index(chars, i) ==> chars[k] != '\n',
        line_end_index(chars, i) < chars.len() ==> chars[line_end_index(chars, i)] == '\n',
    decreases chars.len() - i,
{
    if i < chars.len() && chars[i] != '\n' {
        lemma_line_end(chars, i + 1);
    }
}

proof fn lemma_line_start_unique(chars: Seq<char>, i: int, j: int)
    requires
        0 <= j <= i <= chars.len(),
        forall|k: int| j <= k < i ==> chars[k] != '\n',
        j > 0 ==> chars[j - 1] == '\n',
    ensures
        line_start_index(chars, i) == j,
    decreases i,
{
    if i > j {
        lemma_line_start_unique(chars, i - 1, j);
    }
}

proof fn lemma_line_end_unique(chars: Seq<char>, i: int, j: int)
    requires
        0 <= i <= j <= chars.len(),
        forall|k: int| i <= k < j ==> chars[k] != '\n',
        j < chars.len() ==> chars[j] == '\n',
    ensures
        line_end_index(chars, i) == j,
    decreases chars.len() - i,
{
    if i < j {
        lemma_line_end_unique(chars, i + 1, j);
    }
}

/// The caret count under the span: the characters from the span start to the span end or
/// the end of its line, at least one.
pub open spec fn spec_marker_len(chars: Seq<char>, start: int, end: int) -> nat {
    let marker_end = if end < line_end_index(chars, start) {
        end
    } else {
        line_end_index(chars, start)
    };
    if marker_end <= start {
        1
    } else {
        (marker_end - start) as nat
    }
}

/// The text of the line that holds the span start, and the caret count under the span.
pub fn source_line_context(source: &str, span: SourceSpan) -> (r: (String, usize))
    ensures
        ({
            let cs = spec_char_offset(source, span.start) as int;
            let ce = spec_char_offset(source, span.end) as int;
            &&& r.0@ == source@.subrange(
                line_start_index(source@, cs),
                line_end_index(source@, cs),
            )
            &&& r.1 == spec_marker_len(source@, cs, ce)
        }),
{
    let (cs, _) = char_offset(source, span.start);
    let (ce, _) = char_offset(source, span.end);
    let ghost chars = source@;
    let mut line_start: usize = 0;
    let mut line_end: usize = 0;
    let mut found_end = false;
    let mut k: usize = 0;
    let byte_len = source.as_bytes().len();
    proof {
        encode_utf8_valid_utf8(source@);
        encode_utf8_decode_utf8(source@);
        lemma_decode_len_le(source.spec_bytes());
        assert(source.spec_bytes().len() <= usize::MAX);
    }
    for ch in iter: source.chars()
        invariant
            iter.seq() == chars,
            chars == source@,
            chars.len() <= usize::MAX,
            k == iter.index(),
            cs <= chars.len(),
            line_start <= cs,
            iter.index() <= cs ==> line_start <= iter.index(),
            line_start > 0 ==> line_start <= iter.index() && chars[line_start - 1] == '\n',
            forall|k: int| line_start <= k < cs && k < iter.index() ==> chars[k] != '\n',
            !found_end ==> forall|k: int| cs <= k < iter.index() ==> chars[k] != '\n',
            found_end ==> cs <= line_end < iter.index() && chars[line_end as int] == '\n'
                && forall|k: int| cs <= k < line_end ==> chars[k] != '\n',
    {
        proof {
            assert(chars[k as int] == ch);
        }
        if ch == '\n' {
            if k < cs {
                line_start = k + 1;
            } else if !found_end {
                found_end = true;
                line_end = k;
            }
        }
        k = k + 1;
    }
    if !found_end {
        line_end = source.unicode_len();
    }
    proof {
        lemma_line_start_unique(chars, cs as int, line_start as int);
        lemma_line_end_unique(chars, cs as int, line_end as int);
    }
    let line_text = source.substring_char(line_start, line_end).to_owned();
    let marker_end = if ce < line_end {
        ce
    } else {
        line_end
    };
    let marker_len = if marker_end <= cs {
        1
    } else {
        marker_end - cs
    };
    (line_text, marker_len)
}

/// Right-aligns `s` in a field of three characters.
pub open spec fn pad3(s: Seq<char>) -> Seq<char> {
    if s.len() < 3 {
        repeat_chars(" "@, (3 - s.len()) as nat) + s
    } else {
        s
    }
}

impl ParseError {
    /// The rendering of an error with a span: the error text, then the line and column of the
    /// span start, the source line and a caret marker under the span.
    pub open spec fn spec_render(&self, source: &str) -> Seq<char> {
        match self@.span() {
            None => self@.text(),
            Some(span) => {
                let cs = spec_char_offset(source, span.start) as int;
                let ce = spec_char_offset(source, span.end) as int;
                let (line, col) = spec_line_col(source@.take(cs));
                let line_text = source@.subrange(
                    line_start_index(source@, cs),
                    line_end_index(source@, cs),
                );
                let marker = repeat_chars(" "@, (col - 1) as nat) + repeat_chars(
                    "^"@,
                    spec_marker_len(source@, cs, ce),
                );
                self@.text() + "\n --> line "@ + decimal_chars(line) + ", column "@
                    + decimal_chars(col) + "\n  |\n"@ + pad3(decimal_chars(line)) + " | "@
                    + line_text + "\n  | "@ + marker
            },
        }
    }

    /// Render this error with line/column/source context when a span is present.
    pub fn render_with_source(&self, source: &str) -> (r: String)
        requires
            source@.len() < usize::MAX,
        ensures
            r@ == self.spec_render(source),
    {
        let span = match self.span() {
            Some(span) => span,
            None => return self.display_string(),
        };
        let (line, col) = span.line_col(source);
        let (line_text, marker_len) = source_line_context(source, span);
        let marker_len = if marker_len < 1 {
            1
        } else {
            marker_len
        };
        let mut marker = repeat_str(" ", col - 1);
        marker.append(repeat_str("^", marker_len).as_str());
        let line_digits = decimal_string(line);
        let mut s = self.display_string();
        s.append("\n --> line ");
        s.append(line_digits.as_str());
        s.append(", column ");
        s.append(decimal_string(col).as_str());
        s.append("\n  |\n");
        if line_digits.unicode_len() < 3 {
            s.append(repeat_str(" ", 3 - line_digits.unicode_len()).as_str());
        }
        s.append(line_digits.as_str());
        s.append(" | ");
        s.append(line_text.as_str());
        s.append("\n  | ");
        s.append(marker.as_str());
        s
    }
}

} // verus!
