//! The decisions of a streaming input: given the bytes of the stream held from a position
//! on, and whether the source has ended, each step says what the operation gives, or that
//! more of the source must be read first. The caller performs the reads and calls again.
use vstd::prelude::*;
use vstd::utf8::*;

use crate::error::{ErrorModel, ParseError};
use crate::input::cursor::{ascii_ws_len, scan_ascii_whitespace, utf8_error, window, window_text};
use crate::input::stream_window::{spec_utf8_char_width, utf8_char_width, StreamWindow};
use crate::parse::offset::sat_add;
use crate::text::{decode_at, first_char, CharClass};

verus! {

/// The outcome of decoding the character at a stream position.
#[derive(Debug)]
pub enum CharStep {
    /// More bytes of the source are needed to decide.
    NeedMore,
    /// No character: the bound or the end of the source is reached.
    End,
    /// The character and the number of bytes it takes.
    Char(char, usize),
    /// The bytes there do not form a character; the error is fatal.
    Invalid(ParseError),
}

/// The model of a [`CharStep`]: its error taken by its content.
pub enum CharStepModel {
    NeedMore,
    End,
    Char(char, usize),
    Invalid(ErrorModel),
}

/// The model of `s`.
pub open spec fn char_step_model(s: CharStep) -> CharStepModel {
    match s {
        CharStep::NeedMore => CharStepModel::NeedMore,
        CharStep::End => CharStepModel::End,
        CharStep::Char(c, w) => CharStepModel::Char(c, w),
        CharStep::Invalid(e) => CharStepModel::Invalid(e@),
    }
}

/// The error for a byte that cannot start a character.
pub open spec fn leading_byte_error() -> ErrorModel {
    ErrorModel::Custom("invalid UTF-8 input: invalid leading byte"@).into_fatal()
}

/// The error for a character that would cross the end bound.
pub open spec fn bounded_end_error() -> ErrorModel {
    ErrorModel::Custom("invalid UTF-8 input: unexpected end of bounded stream input"@).into_fatal()
}

/// The error for a character cut off by the end of the source.
pub open spec fn stream_end_error() -> ErrorModel {
    ErrorModel::Custom("invalid UTF-8 input: unexpected end of stream"@).into_fatal()
}

/// Whether `position` is at or past the end bound.
pub open spec fn at_bound(position: usize, end: Option<usize>) -> bool {
    end matches Some(e) && position >= e
}

/// What decoding at `position` gives, where `held` are the stream's bytes from `position` on
/// that are held (all of them up to the end of the source when `done`), and `end` is the
/// optional exclusive bound of the input.
pub open spec fn spec_char_step(
    position: usize,
    end: Option<usize>,
    held: Seq<u8>,
    done: bool,
) -> CharStepModel {
    if at_bound(position, end) {
        CharStepModel::End
    } else if held.len() == 0 {
        if done {
            CharStepModel::End
        } else {
            CharStepModel::NeedMore
        }
    } else {
        let w = spec_utf8_char_width(held[0]);
        if w == 0 {
            CharStepModel::Invalid(leading_byte_error())
        } else if end matches Some(e) && position + w > e {
            CharStepModel::Invalid(bounded_end_error())
        } else if held.len() < w {
            if done {
                CharStepModel::Invalid(stream_end_error())
            } else {
                CharStepModel::NeedMore
            }
        } else if valid_first_scalar(held.subrange(0, w as int)) {
            CharStepModel::Char(first_char(held.subrange(0, w as int)), w)
        } else {
            CharStepModel::Invalid(utf8_error(held.subrange(0, w as int)).into_fatal())
        }
    }
}

/// A scalar encoding that takes all of `b` is valid UTF-8 and decodes to its one character,
/// which encodes back to `b`.
pub proof fn lemma_single_scalar(b: Seq<u8>)
    requires
        valid_first_scalar(b),
        length_of_first_scalar(b) == b.len(),
    ensures
        valid_utf8(b),
        decode_utf8(b) == seq![first_char(b)],
        encode_utf8(seq![first_char(b)]) == b,
{
    assert(pop_first_scalar(b) =~= Seq::<u8>::empty());
    assert(valid_utf8(pop_first_scalar(b)));
    assert(valid_utf8(b));
    assert(decode_utf8(pop_first_scalar(b)) =~= Seq::<char>::empty());
    assert(decode_utf8(b) =~= seq![first_char(b)]);
    decode_utf8_encode_utf8(b);
}

/// The width that the leading byte announces is the length of the scalar it starts.
proof fn lemma_width_is_length(b: Seq<u8>)
    requires
        b.len() > 0,
        spec_utf8_char_width(b[0]) > 0,
    ensures
        length_of_first_codepoint(b) == spec_utf8_char_width(b[0]),
{
}

/// Decodes the character at stream position `position` from `held`, the stream's bytes from
/// there on that are held; `done` when the source has ended after them.
pub fn stream_char_step(position: usize, end: Option<usize>, held: &[u8], done: bool) -> (r:
    CharStep)
    ensures
        char_step_model(r) == spec_char_step(position, end, held@, done),
        r matches CharStep::Char(c, w) ==> {
            &&& 1 <= w <= 4
            &&& w <= held@.len()
            &&& encode_utf8(seq![c]) == held@.subrange(0, w as int)
            &&& end matches Some(e) ==> position + w <= e
        },
        r matches CharStep::Invalid(e) ==> e@.is_fatal(),
{
    if let Some(e) = end {
        if position >= e {
            return CharStep::End;
        }
    }
    if held.len() == 0 {
        return if done {
            CharStep::End
        } else {
            CharStep::NeedMore
        };
    }
    let w = utf8_char_width(held[0]);
    if w == 0 {
        return CharStep::Invalid(ParseError::fatal("invalid UTF-8 input: invalid leading byte"));
    }
    if let Some(e) = end {
        if w > e - position {
            return CharStep::Invalid(
                ParseError::fatal("invalid UTF-8 input: unexpected end of bounded stream input"),
            );
        }
    }
    if held.len() < w {
        return if done {
            CharStep::Invalid(ParseError::fatal("invalid UTF-8 input: unexpected end of stream"))
        } else {
            CharStep::NeedMore
        };
    }
    let ghost b = held@.subrange(0, w as int);
    proof {
        assert(b[0] == held@[0]);
        lemma_width_is_length(b);
    }
    match decode_at(held, 0, w) {
        Some((c, _)) => {
            proof {
                lemma_single_scalar(b);
            }
            CharStep::Char(c, w)
        },
        None => {
            match window_text(held, 0, w) {
                Err(e) => {
                    assert(window(held@, 0, w as int) == b);
                    CharStep::Invalid(e.into_fatal())
                },
                Ok(_) => {
                    proof {
                        assert(window(held@, 0, w as int) == b);
                        assert(valid_utf8(b));
                        assert(false);
                    }
                    CharStep::End
                },
            }
        },
    }
}

/// The outcome of matching a prefix at a stream position.
#[derive(Debug, Clone, Copy, PartialEq, Eq)]
pub enum PrefixStep {
    /// More bytes of the source are needed to decide.
    NeedMore,
    /// The prefix is there; the position after it.
    Matched(usize),
    /// A byte differs from the prefix.
    Mismatch,
    /// The bound or the end of the source comes before the prefix does.
    Ended,
}

/// What matching `prefix` at `position` gives, over the held bytes `held` from there on.
pub open spec fn spec_prefix_step(
    position: usize,
    end: Option<usize>,
    held: Seq<u8>,
    done: bool,
    prefix: Seq<u8>,
) -> PrefixStep {
    let k = if held.len() < prefix.len() {
        held.len()
    } else {
        prefix.len()
    };
    if end matches Some(b) && position + prefix.len() > b {
        PrefixStep::Ended
    } else if held.subrange(0, k as int) != prefix.subrange(0, k as int) {
        PrefixStep::Mismatch
    } else if held.len() >= prefix.len() {
        PrefixStep::Matched(sat_add(position, prefix.len() as usize))
    } else if done {
        PrefixStep::Ended
    } else {
        PrefixStep::NeedMore
    }
}

/// Matches the bytes of `prefix` against `held`, the stream's bytes held from `position` on.
pub fn stream_prefix_step(
    position: usize,
    end: Option<usize>,
    held: &[u8],
    done: bool,
    prefix: &[u8],
) -> (r: PrefixStep)
    ensures
        r == spec_prefix_step(position, end, held@, done, prefix@),
{
    if let Some(b) = end {
        if position > b || prefix.len() > b - position {
            return PrefixStep::Ended;
        }
    }
    let k = if held.len() < prefix.len() {
        held.len()
    } else {
        prefix.len()
    };
    let mut i: usize = 0;
    while i < k
        invariant
            i <= k,
            k <= held@.len(),
            k <= prefix@.len(),
            k == (if held@.len() < prefix@.len() {
                held@.len()
            } else {
                prefix@.len()
            }),
            !(end matches Some(b) && position + prefix@.len() > b),
            held@.subrange(0, i as int) == prefix@.subrange(0, i as int),
        decreases k - i,
    {
        if held[i] != prefix[i] {
            assert(held@.subrange(0, k as int)[i as int] != prefix@.subrange(0, k as int)[i as int]);
            assert(held@.subrange(0, k as int) != prefix@.subrange(0, k as int));
            return PrefixStep::Mismatch;
        }
        assert(held@.subrange(0, i + 1) =~= held@.subrange(0, i as int).push(held@[i as int]));
        assert(prefix@.subrange(0, i + 1) =~= prefix@.subrange(0, i as int).push(prefix@[i as int]));
        i = i + 1;
    }
    assert(held@.subrange(0, k as int) == prefix@.subrange(0, k as int));
    if held.len() >= prefix.len() {
        PrefixStep::Matched(position.saturating_add(prefix.len()))
    } else if done {
        PrefixStep::Ended
    } else {
        PrefixStep::NeedMore
    }
}

/// The outcome of looking for a needle at a stream position.
#[derive(Debug)]
pub enum FindStep {
    /// More bytes of the source are needed to decide.
    NeedMore,
    /// The needle starts here.
    Found(usize),
    /// The needle does not occur from here on.
    NotFound,
    /// The needle does not start here; look again from this next character position.
    Advance(usize),
    /// The bytes here do not form a character; the error is fatal.
    Invalid(ParseError),
}

/// Looks for `needle` at `position`: found there, or the bound or the source ends first, or
/// the search moves one character on.
pub fn stream_find_step(
    position: usize,
    end: Option<usize>,
    held: &[u8],
    done: bool,
    needle: &[u8],
) -> (r: FindStep)
    ensures
        needle@.len() == 0 ==> (r matches FindStep::Found(p) && p == position),
        needle@.len() > 0 ==> match spec_prefix_step(position, end, held@, done, needle@) {
            PrefixStep::Matched(_) => r matches FindStep::Found(p) && p == position,
            PrefixStep::Ended => r is NotFound,
            PrefixStep::NeedMore => r is NeedMore,
            PrefixStep::Mismatch => match spec_char_step(position, end, held@, done) {
                CharStepModel::Char(_, w) => r matches FindStep::Advance(p) && p == sat_add(
                    position,
                    w,
                ),
                CharStepModel::End => r is NotFound,
                CharStepModel::NeedMore => r is NeedMore,
                CharStepModel::Invalid(e) => r matches FindStep::Invalid(f) && f@ == e,
            },
        },
{
    if needle.len() == 0 {
        return FindStep::Found(position);
    }
    match stream_prefix_step(position, end, held, done, needle) {
        PrefixStep::Matched(_) => FindStep::Found(position),
        PrefixStep::Ended => FindStep::NotFound,
        PrefixStep::NeedMore => FindStep::NeedMore,
        PrefixStep::Mismatch => match stream_char_step(position, end, held, done) {
            CharStep::Char(_, w) => FindStep::Advance(position.saturating_add(w)),
            CharStep::End => FindStep::NotFound,
            CharStep::NeedMore => FindStep::NeedMore,
            CharStep::Invalid(e) => FindStep::Invalid(e),
        },
    }
}

/// The outcome of skipping ASCII whitespace at a stream position.
#[derive(Debug, Clone, Copy, PartialEq, Eq)]
pub enum TrimStep {
    /// All held bytes up to this position were whitespace; more of the source is needed.
    NeedMore(usize),
    /// The first position that is not whitespace, the bound, or the end of the source.
    Done(usize),
}

/// The number of held bytes that may be looked at before the bound.
pub open spec fn bounded_len(position: usize, end: Option<usize>, held: Seq<u8>) -> nat {
    match end {
        Some(e) => if e <= position {
            0
        } else if held.len() < e - position {
            held.len()
        } else {
            (e - position) as nat
        },
        None => held.len(),
    }
}

/// What skipping whitespace at `position` gives over the held bytes `held` from there on.
pub open spec fn spec_trim_step(position: usize, end: Option<usize>, held: Seq<u8>, done: bool) -> TrimStep {
    let limit = bounded_len(position, end, held);
    let n = ascii_ws_len(held.subrange(0, limit as int));
    if n < held.len() || done || (end matches Some(e) && position + n >= e) {
        TrimStep::Done((position + n) as usize)
    } else {
        TrimStep::NeedMore((position + n) as usize)
    }
}

/// Skips the ASCII whitespace bytes of `held`, the stream's bytes held from `position` on,
/// stopping at the bound.
pub fn stream_trim_step(position: usize, end: Option<usize>, held: &[u8], done: bool) -> (r:
    TrimStep)
    requires
        position + held@.len() <= usize::MAX,
    ensures
        r == spec_trim_step(position, end, held@, done),
{
    let limit = match end {
        Some(e) => if e <= position {
            0
        } else if held.len() < e - position {
            held.len()
        } else {
            e - position
        },
        None => held.len(),
    };
    let n = scan_ascii_whitespace(held, 0, limit);
    proof {
        assert(window(held@, 0, limit as int) == held@.subrange(0, limit as int));
    }
    let at_end = match end {
        Some(e) => position + n >= e,
        None => false,
    };
    if n < held.len() || done || at_end {
        TrimStep::Done(position + n)
    } else {
        TrimStep::NeedMore(position + n)
    }
}

/// The outcome of one step of a character scan.
#[derive(Debug)]
pub enum ScanStatus {
    /// A character was taken; scan on.
    Continue,
    /// More bytes of the source are needed for the next character.
    NeedMore,
    /// The scan has stopped.
    Done,
    /// The bytes at the cursor do not form a character; the error is fatal.
    Failed(ParseError),
}

/// A scan over a stream that takes characters while they belong to `class` (or, with `keep`
/// false, while they do not), collecting them as text.
pub struct StreamScan {
    matched: String,
    cursor: usize,
    class: CharClass,
    keep: bool,
}

impl StreamScan {
    /// The text taken so far.
    pub closed spec fn spec_matched(&self) -> Seq<char> {
        self.matched@
    }

    /// The position after the text taken so far.
    pub closed spec fn spec_cursor(&self) -> usize {
        self.cursor
    }

    /// The class the characters are tested against.
    pub closed spec fn spec_class(&self) -> CharClass {
        self.class
    }

    /// Whether characters of the class are taken (or those outside it).
    pub closed spec fn spec_keep(&self) -> bool {
        self.keep
    }

    /// A scan from `start` that has taken nothing.
    pub fn new(start: usize, class: CharClass, keep: bool) -> (r: Self)
        ensures
            r.spec_matched() == Seq::<char>::empty(),
            r.spec_cursor() == start,
            r.spec_class() == class,
            r.spec_keep() == keep,
    {
        StreamScan { matched: String::new(), cursor: start, class, keep }
    }

    /// The position after the text taken so far.
    pub fn cursor(&self) -> (r: usize)
        ensures
            r == self.spec_cursor(),
    {
        self.cursor
    }

    /// Decodes the character at the cursor from `held`, the stream's bytes held from the
    /// cursor on, and takes it when it belongs to the class as the scan asks.
    pub fn feed(&mut self, end: Option<usize>, held: &[u8], done: bool) -> (r: ScanStatus)
        ensures
            final(self).spec_class() == old(self).spec_class(),
            final(self).spec_keep() == old(self).spec_keep(),
            match spec_char_step(old(self).spec_cursor(), end, held@, done) {
                CharStepModel::Char(c, w) => if old(self).spec_class().spec_matches(c) == old(
                    self,
                ).spec_keep() {
                    &&& r is Continue
                    &&& final(self).spec_matched() == old(self).spec_matched().push(c)
                    &&& final(self).spec_cursor() == sat_add(old(self).spec_cursor(), w)
                } else {
                    &&& r is Done
                    &&& final(self).spec_matched() == old(self).spec_matched()
                    &&& final(self).spec_cursor() == old(self).spec_cursor()
                },
                CharStepModel::End => {
                    &&& r is Done
                    &&& final(self).spec_matched() == old(self).spec_matched()
                    &&& final(self).spec_cursor() == old(self).spec_cursor()
                },
                CharStepModel::NeedMore => {
                    &&& r is NeedMore
                    &&& final(self).spec_matched() == old(self).spec_matched()
                    &&& final(self).spec_cursor() == old(self).spec_cursor()
                },
                CharStepModel::Invalid(e) => {
                    &&& r matches ScanStatus::Failed(f) && f@ == e
                    &&& final(self).spec_matched() == old(self).spec_matched()
                    &&& final(self).spec_cursor() == old(self).spec_cursor()
                },
            },
    {
        match stream_char_step(self.cursor, end, held, done) {
            CharStep::Char(c, w) => {
                if self.class.matches(c) == self.keep {
                    let ghost b = held@.subrange(0, w as int);
                    match window_text(held, 0, w) {
                        Ok(text) => {
                            proof {
                                assert(window(held@, 0, w as int) == b);
                                assert(b[0] == held@[0]);
                                lemma_width_is_length(b);
                                lemma_single_scalar(b);
                            }
                            self.matched.append(text);
                            self.cursor = self.cursor.saturating_add(w);
                            ScanStatus::Continue
                        },
                        Err(_) => {
                            proof {
                                assert(window(held@, 0, w as int) == b);
                                assert(b[0] == held@[0]);
                                lemma_width_is_length(b);
                                lemma_single_scalar(b);
                                assert(false);
                            }
                            ScanStatus::Done
                        },
                    }
                } else {
                    ScanStatus::Done
                }
            },
            CharStep::End => ScanStatus::Done,
            CharStep::NeedMore => ScanStatus::NeedMore,
            CharStep::Invalid(e) => ScanStatus::Failed(e),
        }
    }

    /// The text taken and the position after it.
    pub fn finish(self) -> (r: (String, usize))
        ensures
            r.0@ == self.spec_matched(),
            r.1 == self.spec_cursor(),
    {
        (self.matched, self.cursor)
    }
}

/// The error for slice bounds that do not describe a segment of the input.
pub open spec fn slice_bounds_error() -> ErrorModel {
    ErrorModel::Custom("invalid stream bounds while slicing input"@).into_fatal()
}

impl<const N: usize> StreamWindow<N> {
    /// Checks that `position` is still held or ahead of the window: the replay error when it
    /// has left the window.
    pub fn check_replay(&self, position: usize) -> (r: Result<(), ParseError>)
        ensures
            r is Err <==> position < self.spec_start(),
            r matches Err(e) ==> e@ == ErrorModel::Custom(
                crate::input::stream_window::replay_message(N),
            ).into_fatal(),
    {
        if position < self.start() {
            Err(Self::replay_error())
        } else {
            Ok(())
        }
    }

    /// The segment from `start` up to `other_start`, within the bound `end` both inputs
    /// share: the bounds error when `other_start` is before `start` or past the bound, the
    /// replay error when either position has left the window.
    pub fn slice_bounds(&self, start: usize, end: Option<usize>, other_start: usize) -> (r: Result<
        (usize, Option<usize>),
        ParseError,
    >)
        ensures
            (other_start < start || (end matches Some(b) && other_start > b)) ==> (r matches Err(e)
                && e@ == slice_bounds_error()),
            !(other_start < start || (end matches Some(b) && other_start > b)) && start
                < self.spec_start() ==> (r matches Err(e) && e@ == ErrorModel::Custom(
                crate::input::stream_window::replay_message(N),
            ).into_fatal()),
            !(other_start < start || (end matches Some(b) && other_start > b)) && start
                >= self.spec_start() ==> r == Ok::<(usize, Option<usize>), ParseError>(
                (start, Some(other_start)),
            ),
    {
        if other_start < start {
            return Err(ParseError::fatal("invalid stream bounds while slicing input"));
        }
        if let Some(b) = end {
            if other_start > b {
                return Err(ParseError::fatal("invalid stream bounds while slicing input"));
            }
        }
        self.check_replay(start)?;
        Ok((start, Some(other_start)))
    }

    /// The number of bytes left from `start`: up to the bound when there is one, up to the
    /// end of what the source gave once it has ended, and otherwise as many as a position
    /// can still count.
    pub fn input_len(&self, start: usize, end: Option<usize>) -> (r: usize)
        ensures
            r == (match end {
                Some(b) => if b >= start {
                    (b - start) as usize
                } else {
                    0usize
                },
                None => if self.spec_eof() {
                    if self.spec_loaded_end() >= start {
                        (self.spec_loaded_end() - start) as usize
                    } else {
                        0usize
                    }
                } else {
                    (usize::MAX - start) as usize
                },
            }),
    {
        match end {
            Some(b) => b.saturating_sub(start),
            None => if self.eof() {
                self.loaded_end().saturating_sub(start)
            } else {
                usize::MAX - start
            },
        }
    }
}

} // verus!
