//! Properties that hold of the library as a whole, stated over the models of its errors,
//! spans, contexts and parsers.
use vstd::prelude::*;

use crate::collections::repeat::{bounded_rel, Repeat};
use crate::combinators::cut::Cut;
use crate::combinators::keyword::{Keyword, KeywordBoundary};
use crate::combinators::peek::Peek;
use crate::combinators::separated::{sep_chain, sep_scan_ok, Separated};
use crate::combinators::span::{consumed, scoped_ctx, Span};
use crate::error::{dedup_chars, spec_preview, ErrorModel, SourceSpan};
use crate::input::Input;
use crate::parse::offset::{
    best_root, preferred, spec_current_offset, ContextModel, ParseOffsetAnchor, ParseOffsetInput,
};
use crate::parse::traits::{repeat_chain, repeat_steps};
use crate::parse::Parse;
use crate::token::{literal_rel, Token};
use crate::combinators::keyword::IdentBoundary;
use crate::text::{char_is_alphanumeric, char_is_whitespace, CharClass};
use crate::input::StrInput;
use crate::combinators::delimited::Delimited;
use crate::combinators::delim_nested::{balanced, DelimNested};
use crate::input::str_input::ascii_byte;

verus! {

/// Promoting an error to fatal twice is the same as promoting it once.
pub proof fn law_into_fatal_idempotent(e: ErrorModel)
    ensures
        e.into_fatal().into_fatal() == e.into_fatal(),
{
}

/// A promoted error is fatal.
pub proof fn law_into_fatal_is_fatal(e: ErrorModel)
    ensures
        e.into_fatal().is_fatal(),
{
}

/// Promotion keeps an error's span and root cause: a span is seen through the fatal wrapper.
pub proof fn law_into_fatal_keeps_span_and_cause(e: ErrorModel)
    ensures
        e.into_fatal().span() == e.span(),
        e.into_fatal().root_cause() == e.root_cause(),
{
}

/// Attaching a span sets it when the error carries none, and otherwise keeps the error as it
/// is, whether its span was attached before or after fatal promotion; either way fatality and
/// root cause are unchanged.
pub proof fn law_with_span(e: ErrorModel, s: SourceSpan)
    ensures
        e.span() is None ==> e.with_span(s).span() == Some(s),
        e.span() is Some ==> e.with_span(s) == e,
        e.with_span(s).span() is Some,
        e.with_span(s).is_fatal() == e.is_fatal(),
        e.with_span(s).root_cause() == e.root_cause(),
{
}

/// A span attached to a fatal error is seen from outside, and a span attached before the
/// promotion is seen after it.
pub proof fn law_fatal_span_transparent(e: ErrorModel, s: SourceSpan)
    requires
        e.span() is None,
    ensures
        e.with_span(s).into_fatal().span() == Some(s),
        e.into_fatal().with_span(s).span() == Some(s),
        e.with_span(s).into_fatal().is_fatal(),
        e.into_fatal().with_span(s).is_fatal(),
{
    reveal_with_fuel(ErrorModel::span, 3);
    reveal_with_fuel(ErrorModel::is_fatal, 3);
}

/// The farther of two errors is one of them: the one with the later span, the spanned one
/// when only one has a span, and the second on a tie.
pub proof fn law_farthest(a: ErrorModel, b: ErrorModel)
    ensures
        a.farthest(b) == a || a.farthest(b) == b,
        (a.span() is Some && b.span() is None) ==> a.farthest(b) == a,
        a.span() is None ==> a.farthest(b) == b,
        (a.span() is Some && a.span() == b.span()) ==> a.farthest(b) == b,
        (a.span() matches Some(x) && b.span() matches Some(y) && y.start > x.start) ==> a.farthest(b)
            == b,
        (a.span() matches Some(x) && b.span() matches Some(y) && y.start < x.start) ==> a.farthest(b)
            == a,
{
}

/// Deduplicating tokens keeps exactly the tokens there were, each once.
pub proof fn law_dedup(tokens: Seq<Seq<char>>)
    ensures
        forall|t: Seq<char>| dedup_chars(tokens).contains(t) <==> tokens.contains(t),
        dedup_chars(tokens).no_duplicates(),
{
    crate::error::lemma_dedup_properties(tokens);
}

/// A span made from a start and an end never ends before it starts.
pub proof fn law_span_ordered(start: usize, end: usize)
    ensures
        SourceSpan::spec_new(start, end).start <= SourceSpan::spec_new(start, end).end,
        SourceSpan::spec_new(start, end).start == start,
{
}

/// A preview is at most `max` characters of the input plus an ellipsis, and starts like it.
pub proof fn law_preview_bounded(input: Seq<char>, max: nat)
    ensures
        spec_preview(input, max).len() <= max + 3,
        input.len() <= max && max > 0 ==> spec_preview(input, max) == input,
        forall|i: int|
            0 <= i < spec_preview(input, max).len() && i < max ==> #[trigger] spec_preview(input, max)[i]
                == input[i],
{
}

/// Items chained by repeated parses each consume something, so the end of a non-empty chain
/// is shorter than its start.
pub proof fn law_repetition_consumes<'a, I: ParseOffsetInput<'a>, T: Parse<'a, I>>(
    input: I,
    ctx: ContextModel,
    items: Seq<T>,
    rest: I,
)
    requires
        repeat_steps::<I, T>(input, ctx, items, rest),
    ensures
        rest.spec_len() + items.len() <= input.spec_len(),
{
    let mids = choose|mids: Seq<I>|
        #[trigger] repeat_chain::<I, T>(ctx, items, mids) && mids[0] == input && mids.last() == rest;
    lemma_chain_shrinks::<I, T>(ctx, items, mids, items.len() as int);
}

proof fn lemma_chain_shrinks<'a, I: ParseOffsetInput<'a>, T: Parse<'a, I>>(
    ctx: ContextModel,
    items: Seq<T>,
    mids: Seq<I>,
    k: int,
)
    requires
        repeat_chain::<I, T>(ctx, items, mids),
        0 <= k <= items.len(),
    ensures
        mids[k].spec_len() + k <= mids[0].spec_len(),
    decreases k,
{
    if k > 0 {
        let j = k - 1;
        lemma_chain_shrinks::<I, T>(ctx, items, mids, j);
        assert(T::parse_rel(mids[j], ctx, Ok((items[j], mids[j + 1]))));
    }
}

/// A bounded repetition that succeeds holds between `MIN` and `MAX` items.
pub proof fn law_repeat_bounds<'a, I: ParseOffsetInput<'a>, T: Parse<'a, I>, const MIN: usize, const MAX: usize>(
    input: I,
    ctx: ContextModel,
    r: Repeat<T, MIN, MAX>,
    rest: I,
)
    requires
        Repeat::<T, MIN, MAX>::parse_rel(input, ctx, Ok((r, rest))),
    ensures
        MIN <= r.spec_items().len() <= MAX,
{
}

/// A separated list that succeeds has one more item than separators.
pub proof fn law_separated_counts<'a, I: ParseOffsetInput<'a>, T: Parse<'a, I>, S: Parse<'a, I>>(
    input: I,
    ctx: ContextModel,
    s: Separated<T, S>,
    rest: I,
)
    requires
        Separated::<T, S>::parse_rel(input, ctx, Ok((s, rest))),
    ensures
        s.items@.len() == s.separators@.len() + 1,
{
    let (item_at, sep_at) = choose|item_at: Seq<I>, sep_at: Seq<I>|
        #[trigger] sep_chain::<I, T, S>(ctx, s.items@, s.separators@, item_at, sep_at) && item_at[0]
            == input && match Some(rest) {
            None => s.separators@.len() == s.items@.len() && crate::parse::traits::fails_softly::<
                I,
                T,
            >(item_at.last(), ctx),
            Some(r) => s.separators@.len() + 1 == s.items@.len() && r == sep_at.last()
                && crate::parse::traits::fails_softly::<I, S>(r, ctx),
        };
}

/// `Option` only fails with a fatal error.
pub proof fn law_option_fails_only_fatally<'a, I: ParseOffsetInput<'a>, T: Parse<'a, I>>(
    input: I,
    ctx: ContextModel,
    e: ErrorModel,
)
    requires
        Option::<T>::parse_rel(input, ctx, Err(e)),
    ensures
        e.is_fatal(),
{
}

/// Every failure of `Cut` is fatal.
pub proof fn law_cut_errors_are_fatal<'a, I: ParseOffsetInput<'a>, T: Parse<'a, I>>(
    input: I,
    ctx: ContextModel,
    e: ErrorModel,
)
    requires
        Cut::<T>::parse_rel(input, ctx, Err(e)),
    ensures
        e.is_fatal(),
{
}

/// `Peek` never consumes input.
pub proof fn law_peek_keeps_input<'a, I: ParseOffsetInput<'a>, P: Parse<'a, I>>(
    input: I,
    ctx: ContextModel,
    v: Peek<P>,
    rest: I,
)
    requires
        Peek::<P>::parse_rel(input, ctx, Ok((v, rest))),
    ensures
        rest == input,
{
}

/// The span of a `Span` starts at the input's offset in its scope and covers what the
/// wrapped parser consumed.
pub proof fn law_span_covers_consumed<'a, I: ParseOffsetInput<'a>, P: Parse<'a, I>>(
    input: I,
    ctx: ContextModel,
    v: Span<P>,
    rest: I,
)
    requires
        Span::<P>::parse_rel(input, ctx, Ok((v, rest))),
    ensures
        v.span == SourceSpan::spec_from_start_len(
            spec_current_offset(scoped_ctx(ctx, input), input),
            consumed(input, rest),
        ),
        P::parse_rel(input, scoped_ctx(ctx, input), Ok((v.inner, rest))),
{
}

/// A keyword that parses is followed by a boundary character or by the end of the input.
pub proof fn law_keyword_boundary<'a, I: ParseOffsetInput<'a>, T: Token, B: KeywordBoundary>(
    input: I,
    ctx: ContextModel,
    k: Keyword<T, B>,
    rest: I,
)
    requires
        Keyword::<T, B>::parse_rel(input, ctx, Ok((k, rest))),
    ensures
        literal_rel(T::spec_value(), input, ctx) == Ok::<I, ErrorModel>(rest),
        match rest.spec_take_char() {
            Ok(Some((c, _))) => B::spec_is_boundary(c),
            Ok(None) => true,
            Err(_) => false,
        },
{
}

/// The offset of an input is taken from the most preferred root that contains it: no
/// containing root is shorter, or as long and starting later.
pub proof fn law_current_offset_innermost<'a, I: ParseOffsetInput<'a>>(
    roots: Seq<ParseOffsetAnchor>,
    input: I,
)
    ensures
        match best_root(roots, input) {
            Some((off, root)) => {
                &&& roots.contains(root)
                &&& input.spec_offset_from(root) == Some(off)
                &&& forall|i: int|
                    0 <= i < roots.len() && (#[trigger] input.spec_offset_from(roots[i])) is Some
                        ==> !preferred(roots[i], root)
            },
            None => forall|i: int|
                0 <= i < roots.len() ==> (#[trigger] input.spec_offset_from(roots[i])) is None,
        },
    decreases roots.len(),
{
    if roots.len() > 0 {
        let init = roots.drop_last();
        law_current_offset_innermost(init, input);
        assert forall|i: int| 0 <= i < init.len() implies init[i] == roots[i] by {}
        let last = roots.last();
        assert(roots[roots.len() - 1] == last);
        match best_root(init, input) {
            Some((_, b)) => {
                assert(init.contains(b));
                let j = choose|j: int| 0 <= j < init.len() && init[j] == b;
                assert(roots[j] == b);
            },
            None => {},
        }
    }
}

/// A keyword with the identifier boundary is followed by the end of the input or by a
/// character that is neither alphanumeric nor `_`.
pub proof fn law_ident_keyword_boundary<'a, I: ParseOffsetInput<'a>, T: Token>(
    input: I,
    ctx: ContextModel,
    k: Keyword<T, IdentBoundary>,
    rest: I,
)
    requires
        Keyword::<T, IdentBoundary>::parse_rel(input, ctx, Ok((k, rest))),
    ensures
        match rest.spec_take_char() {
            Ok(Some((c, _))) => !char_is_alphanumeric(c) && c != '_',
            Ok(None) => true,
            Err(_) => false,
        },
{
    law_keyword_boundary::<I, T, IdentBoundary>(input, ctx, k, rest);
}

/// A `i8` read after a `-` is not positive, and one read without it is not negative.
pub proof fn law_i8_sign_follows_text<'a, I: ParseOffsetInput<'a>>(input: I, ctx: ContextModel, v: i8, rest: I)
    requires
        i8::parse_rel(input, ctx, Ok((v, rest))),
    ensures
        (input.spec_trim_start().spec_strip_prefix("-"@) matches Ok(Some(_))) ==> v <= 0,
        !(input.spec_trim_start().spec_strip_prefix("-"@) matches Ok(Some(_))) ==> v >= 0,
{
}

/// A `i16` read after a `-` is not positive, and one read without it is not negative.
pub proof fn law_i16_sign_follows_text<'a, I: ParseOffsetInput<'a>>(input: I, ctx: ContextModel, v: i16, rest: I)
    requires
        i16::parse_rel(input, ctx, Ok((v, rest))),
    ensures
        (input.spec_trim_start().spec_strip_prefix("-"@) matches Ok(Some(_))) ==> v <= 0,
        !(input.spec_trim_start().spec_strip_prefix("-"@) matches Ok(Some(_))) ==> v >= 0,
{
}

/// A `i32` read after a `-` is not positive, and one read without it is not negative.
pub proof fn law_i32_sign_follows_text<'a, I: ParseOffsetInput<'a>>(input: I, ctx: ContextModel, v: i32, rest: I)
    requires
        i32::parse_rel(input, ctx, Ok((v, rest))),
    ensures
        (input.spec_trim_start().spec_strip_prefix("-"@) matches Ok(Some(_))) ==> v <= 0,
        !(input.spec_trim_start().spec_strip_prefix("-"@) matches Ok(Some(_))) ==> v >= 0,
{
}

/// A `i64` read after a `-` is not positive, and one read without it is not negative.
pub proof fn law_i64_sign_follows_text<'a, I: ParseOffsetInput<'a>>(input: I, ctx: ContextModel, v: i64, rest: I)
    requires
        i64::parse_rel(input, ctx, Ok((v, rest))),
    ensures
        (input.spec_trim_start().spec_strip_prefix("-"@) matches Ok(Some(_))) ==> v <= 0,
        !(input.spec_trim_start().spec_strip_prefix("-"@) matches Ok(Some(_))) ==> v >= 0,
{
}

/// A `isize` read after a `-` is not positive, and one read without it is not negative.
pub proof fn law_isize_sign_follows_text<'a, I: ParseOffsetInput<'a>>(input: I, ctx: ContextModel, v: isize, rest: I)
    requires
        isize::parse_rel(input, ctx, Ok((v, rest))),
    ensures
        (input.spec_trim_start().spec_strip_prefix("-"@) matches Ok(Some(_))) ==> v <= 0,
        !(input.spec_trim_start().spec_strip_prefix("-"@) matches Ok(Some(_))) ==> v >= 0,
{
}

/// A `i128` read after a `-` is not positive, and one read without it is not negative.
pub proof fn law_i128_sign_follows_text<'a, I: ParseOffsetInput<'a>>(input: I, ctx: ContextModel, v: i128, rest: I)
    requires
        i128::parse_rel(input, ctx, Ok((v, rest))),
    ensures
        (input.spec_trim_start().spec_strip_prefix("-"@) matches Ok(Some(_))) ==> v <= 0,
        !(input.spec_trim_start().spec_strip_prefix("-"@) matches Ok(Some(_))) ==> v >= 0,
{
}

/// Every signed width reads the same value: a `i8` that parses is the `i128` read from the
/// same input, with the same rest.
pub proof fn law_i8_agrees_with_i128<'a, I: ParseOffsetInput<'a>>(input: I, ctx: ContextModel, v: i8, rest: I)
    requires
        i8::parse_rel(input, ctx, Ok((v, rest))),
    ensures
        i128::parse_rel(input, ctx, Ok((v as i128, rest))),
{
}

/// Every signed width reads the same value: a `i16` that parses is the `i128` read from the
/// same input, with the same rest.
pub proof fn law_i16_agrees_with_i128<'a, I: ParseOffsetInput<'a>>(input: I, ctx: ContextModel, v: i16, rest: I)
    requires
        i16::parse_rel(input, ctx, Ok((v, rest))),
    ensures
        i128::parse_rel(input, ctx, Ok((v as i128, rest))),
{
}

/// Every signed width reads the same value: a `i32` that parses is the `i128` read from the
/// same input, with the same rest.
pub proof fn law_i32_agrees_with_i128<'a, I: ParseOffsetInput<'a>>(input: I, ctx: ContextModel, v: i32, rest: I)
    requires
        i32::parse_rel(input, ctx, Ok((v, rest))),
    ensures
        i128::parse_rel(input, ctx, Ok((v as i128, rest))),
{
}

/// Every signed width reads the same value: a `i64` that parses is the `i128` read from the
/// same input, with the same rest.
pub proof fn law_i64_agrees_with_i128<'a, I: ParseOffsetInput<'a>>(input: I, ctx: ContextModel, v: i64, rest: I)
    requires
        i64::parse_rel(input, ctx, Ok((v, rest))),
    ensures
        i128::parse_rel(input, ctx, Ok((v as i128, rest))),
{
}

/// Every signed width reads the same value: a `isize` that parses is the `i128` read from the
/// same input, with the same rest.
pub proof fn law_isize_agrees_with_i128<'a, I: ParseOffsetInput<'a>>(input: I, ctx: ContextModel, v: isize, rest: I)
    requires
        isize::parse_rel(input, ctx, Ok((v, rest))),
    ensures
        i128::parse_rel(input, ctx, Ok((v as i128, rest))),
{
}

/// A word read as `&str` is a non-empty prefix of the text with no whitespace in it, and the
/// text after it is empty or starts with whitespace.
pub proof fn law_str_word_splits_at_whitespace<'a>(input: StrInput<'a>, ctx: ContextModel, s: &'a str, rest: StrInput<'a>)
    requires
        input.wf(),
        <&'a str as Parse<'a, StrInput<'a>>>::parse_rel(input, ctx, Ok((s, rest))),
    ensures
        input.text() == s@ + rest.text(),
        s@.len() > 0,
        forall|i: int| 0 <= i < s@.len() ==> !char_is_whitespace(#[trigger] s@[i]),
        rest.text().len() > 0 ==> char_is_whitespace(rest.text()[0]),
{
    input.lemma_take_while_text(CharClass::NonWhitespace);
    assert forall|i: int| 0 <= i < s@.len() implies !char_is_whitespace(#[trigger] s@[i]) by {
        assert(CharClass::NonWhitespace.spec_matches(s@[i]));
    }
    if rest.text().len() > 0 {
        assert(!CharClass::NonWhitespace.spec_matches(rest.text()[0]));
    }
}

/// A word read as `String` is a non-empty prefix of the text with no whitespace in it, and
/// the text after it is empty or starts with whitespace.
pub proof fn law_string_word_splits_at_whitespace<'a>(input: StrInput<'a>, ctx: ContextModel, s: String, rest: StrInput<'a>)
    requires
        input.wf(),
        <String as Parse<'a, StrInput<'a>>>::parse_rel(input, ctx, Ok((s, rest))),
    ensures
        input.text() == s@ + rest.text(),
        s@.len() > 0,
        forall|i: int| 0 <= i < s@.len() ==> !char_is_whitespace(#[trigger] s@[i]),
        rest.text().len() > 0 ==> char_is_whitespace(rest.text()[0]),
{
    input.lemma_take_while_text(CharClass::NonWhitespace);
    assert forall|i: int| 0 <= i < s@.len() implies !char_is_whitespace(#[trigger] s@[i]) by {
        assert(CharClass::NonWhitespace.spec_matches(s@[i]));
    }
    if rest.text().len() > 0 {
        assert(!CharClass::NonWhitespace.spec_matches(rest.text()[0]));
    }
}

/// A word read as `Cow<str>` is a non-empty prefix of the text with no whitespace in it, and
/// the text after it is empty or starts with whitespace.
pub proof fn law_cow_word_splits_at_whitespace<'a>(
    input: StrInput<'a>,
    ctx: ContextModel,
    s: std::borrow::Cow<'a, str>,
    rest: StrInput<'a>,
)
    requires
        input.wf(),
        <std::borrow::Cow<'a, str> as Parse<'a, StrInput<'a>>>::parse_rel(input, ctx, Ok((s, rest))),
    ensures
        input.text() == s@ + rest.text(),
        s@.len() > 0,
        forall|i: int| 0 <= i < s@.len() ==> !char_is_whitespace(#[trigger] s@[i]),
        rest.text().len() > 0 ==> char_is_whitespace(rest.text()[0]),
{
    input.lemma_take_while_text(CharClass::NonWhitespace);
    assert forall|i: int| 0 <= i < s@.len() implies !char_is_whitespace(#[trigger] s@[i]) by {
        assert(CharClass::NonWhitespace.spec_matches(s@[i]));
    }
    if rest.text().len() > 0 {
        assert(!CharClass::NonWhitespace.spec_matches(rest.text()[0]));
    }
}

/// `Delimited` skips whitespace before each of its three parts: when `S` reads the input after
/// its whitespace, `I` what follows after its whitespace, and `E` what follows that after its
/// whitespace, the delimited value is the three values, with the rest `E` leaves.
pub proof fn law_delimited_skips_whitespace<'a, In: ParseOffsetInput<'a>, S: Parse<'a, In>, E: Parse<'a, In>, I: Parse<'a, In>>(
    input: In,
    ctx: ContextModel,
    start: S,
    m1: In,
    inner: I,
    m2: In,
    end: E,
    rest: In,
)
    requires
        S::parse_rel(input.spec_trim_start(), ctx, Ok((start, m1))),
        I::parse_rel(m1.spec_trim_start(), ctx, Ok((inner, m2))),
        E::parse_rel(m2.spec_trim_start(), ctx, Ok((end, rest))),
    ensures
        Delimited::<S, E, I>::parse_rel(
            input,
            ctx,
            Ok((Delimited { start, end, inner }, rest)),
        ),
{
}

/// Nested delimiters pair up: for a text `l s r t` whose part `s` is balanced in the ASCII
/// delimiters `l` and `r` (every prefix opens at least as often as it closes, and all of it
/// equally often), `DelimNested` reads its inner value from exactly `s` and leaves exactly
/// `t`; each closing delimiter inside `s` lowers the nesting depth by one.
pub proof fn law_nested_delimiters_pair_up<'a, L: Token, R: Token, Inner: Parse<'a, StrInput<'a>>>(
    input: StrInput<'a>,
    ctx: ContextModel,
    l: char,
    r: char,
    s: Seq<u8>,
    t: Seq<u8>,
    dn: DelimNested<L, R, Inner>,
    rest: StrInput<'a>,
)
    requires
        input.wf(),
        L::spec_value() == seq![l],
        R::spec_value() == seq![r],
        (l as u32) < 0x80,
        (r as u32) < 0x80,
        l != r,
        input.rem() == seq![ascii_byte(l)] + s + seq![ascii_byte(r)] + t,
        balanced(s, ascii_byte(l), ascii_byte(r)),
        DelimNested::<L, R, Inner>::parse_rel(input, ctx, Ok((dn, rest))),
    ensures
        rest.rem() == t,
        exists|seg: StrInput<'a>, left_over: StrInput<'a>|
            seg.rem() == s && #[trigger] Inner::parse_rel(seg, ctx, Ok((dn.inner, left_over))),
{
    input.lemma_nested_balanced::<L, R>(l, r, s, t, ctx);
}

} // verus!
