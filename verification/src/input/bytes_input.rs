//! Input over UTF-8 encoded bytes, checked when text is needed.
use vstd::prelude::*;
use vstd::string::*;
use vstd::utf8::*;

use super::cursor::{
    ascii_ws_len, class_prefix_len, first_occurrence, find_at, has_prefix_at, lemma_ascii_ws_bound,
    occurs_at, scan_ascii_whitespace, scan_chars, till_len, utf8_error, window, window_text,
};
use super::{res_model, text_res_model, Input};
use crate::error::{ErrorModel, ParseError, ParseResult};
use crate::text::{
    decode_at, first_char, lemma_chars_of_bytes, lemma_first_scalar_len, lossy_text,
    std_from_utf8_lossy, CharClass,
};

verus! {

/// A cursor over a byte slice: the bytes `start..end` of the slice it was made from.
#[derive(Debug, Clone, Copy)]
pub struct BytesInput<'a> {
    bytes: &'a [u8],
    start: usize,
    end: usize,
}

impl<'a> BytesInput<'a> {
    #[verifier::type_invariant]
    closed spec fn inv(self) -> bool {
        self.start <= self.end <= self.bytes@.len()
    }

    /// The remaining bytes.
    pub closed spec fn rem(self) -> Seq<u8> {
        window(self.bytes@, self.start as int, self.end as int)
    }

    /// The byte offset of the cursor in the slice it was made from.
    pub closed spec fn offset(self) -> usize {
        self.start
    }

    closed spec fn advanced(self, n: int) -> Self {
        BytesInput { bytes: self.bytes, start: (self.start + n) as usize, end: self.end }
    }

    closed spec fn bounds_error() -> ErrorModel {
        ErrorModel::Custom("invalid input bounds while slicing byte input"@)
    }

    /// A cursor over the whole of `bytes`.
    pub fn new(bytes: &'a [u8]) -> (r: Self)
        ensures
            r.rem() == bytes@,
            r.offset() == 0,
    {
        assert(window(bytes@, 0, bytes@.len() as int) =~= bytes@);
        BytesInput { bytes, start: 0, end: bytes.len() }
    }

    /// The remaining bytes.
    pub fn as_bytes(self) -> (r: &'a [u8])
        ensures
            r@ == self.rem(),
    {
        proof {
            use_type_invariant(&self);
        }
        vstd::slice::slice_subrange(self.bytes, self.start, self.end)
    }

    /// The byte offset of the cursor within the slice it was made from.
    pub fn position(self) -> (r: usize)
        ensures
            r == self.offset(),
    {
        self.start
    }

    pub(crate) closed spec fn spec_anchor_start(self) -> usize {
        self.start
    }
}

impl<'a> Input<'a> for BytesInput<'a> {
    closed spec fn spec_len(self) -> nat {
        (self.end - self.start) as nat
    }

    closed spec fn spec_trim_start(self) -> Self {
        self.advanced(ascii_ws_len(self.rem()) as int)
    }

    closed spec fn spec_is_empty(self) -> bool {
        self.start == self.end
    }

    closed spec fn spec_display(self) -> Seq<char> {
        lossy_text(self.rem())
    }

    closed spec fn spec_strip_prefix(self, prefix: Seq<char>) -> Result<Option<Self>, ErrorModel> {
        if !valid_utf8(self.rem()) {
            Err(utf8_error(self.rem()))
        } else if occurs_at(self.rem(), encode_utf8(prefix), 0) {
            Ok(Some(self.advanced(encode_utf8(prefix).len() as int)))
        } else {
            Ok(None)
        }
    }

    closed spec fn spec_find(self, needle: Seq<char>) -> Result<Option<Self>, ErrorModel> {
        if !valid_utf8(self.rem()) {
            Err(utf8_error(self.rem()))
        } else {
            match first_occurrence(self.rem(), encode_utf8(needle), 0) {
                Some(i) => Ok(Some(self.advanced(i))),
                None => Ok(None),
            }
        }
    }

    closed spec fn spec_slice_to(self, end: Self) -> Result<Self, ErrorModel> {
        if end.spec_len() > self.spec_len() {
            Err(Self::bounds_error())
        } else {
            let consumed = self.spec_len() - end.spec_len();
            Ok(BytesInput { bytes: self.bytes, start: self.start, end: (self.start + consumed) as usize })
        }
    }

    closed spec fn spec_take_char(self) -> Result<Option<(char, Self)>, ErrorModel> {
        if !valid_utf8(self.rem()) {
            Err(utf8_error(self.rem()))
        } else if self.start == self.end {
            Ok(None)
        } else {
            Ok(Some((first_char(self.rem()), self.advanced(length_of_first_scalar(self.rem())))))
        }
    }

    closed spec fn spec_take_while(self, class: CharClass) -> Result<(Seq<char>, Self), ErrorModel> {
        if !valid_utf8(self.rem()) {
            Err(utf8_error(self.rem()))
        } else {
            let k = class_prefix_len(self.rem(), class) as int;
            Ok((decode_utf8(self.rem().take(k)), self.advanced(k)))
        }
    }

    closed spec fn spec_take_till(self, class: CharClass) -> Result<(Seq<char>, Self), ErrorModel> {
        if !valid_utf8(self.rem()) {
            Err(utf8_error(self.rem()))
        } else {
            let k = till_len(self.rem(), class) as int;
            Ok((decode_utf8(self.rem().take(k)), self.advanced(k)))
        }
    }

    fn input_len(self) -> (r: usize) {
        proof {
            use_type_invariant(&self);
        }
        self.end - self.start
    }

    fn trim_start(self) -> (r: Self) {
        proof {
            use_type_invariant(&self);
        }
        let pos = scan_ascii_whitespace(self.bytes, self.start, self.end);
        BytesInput { bytes: self.bytes, start: pos, end: self.end }
    }

    fn is_empty(self) -> (r: bool) {
        self.start == self.end
    }

    fn display(self) -> (r: String) {
        std_from_utf8_lossy(self.as_bytes())
    }

    fn strip_prefix(self, prefix: &str) -> (r: ParseResult<Option<Self>>) {
        proof {
            use_type_invariant(&self);
        }
        let _text = window_text(self.bytes, self.start, self.end)?;
        let p = prefix.as_bytes();
        if has_prefix_at(self.bytes, self.start, self.end, p) {
            Ok(Some(BytesInput { bytes: self.bytes, start: self.start + p.len(), end: self.end }))
        } else {
            Ok(None)
        }
    }

    fn find(self, needle: &str) -> (r: ParseResult<Option<Self>>) {
        proof {
            use_type_invariant(&self);
        }
        let _text = window_text(self.bytes, self.start, self.end)?;
        let n = needle.as_bytes();
        match find_at(self.bytes, self.start, self.end, n) {
            Some(pos) => {
                proof {
                    super::cursor::lemma_first_occurrence(self.rem(), n@, 0);
                }
                Ok(Some(BytesInput { bytes: self.bytes, start: pos, end: self.end }))
            },
            None => Ok(None),
        }
    }

    fn slice_to(self, end: Self) -> (r: ParseResult<Self>) {
        proof {
            use_type_invariant(&self);
            use_type_invariant(&end);
        }
        let len = self.end - self.start;
        let end_len = end.end - end.start;
        if end_len > len {
            return Err(ParseError::custom("invalid input bounds while slicing byte input"));
        }
        let consumed = len - end_len;
        Ok(BytesInput { bytes: self.bytes, start: self.start, end: self.start + consumed })
    }

    fn take_char(self) -> (r: ParseResult<Option<(char, Self)>>) {
        proof {
            use_type_invariant(&self);
        }
        let _text = window_text(self.bytes, self.start, self.end)?;
        if self.start == self.end {
            return Ok(None);
        }
        match decode_at(self.bytes, self.start, self.end) {
            Some((c, w)) => Ok(Some((c, BytesInput { bytes: self.bytes, start: self.start + w, end: self.end }))),
            None => {
                assert(false);
                Ok(None)
            },
        }
    }

    fn take_while(self, class: CharClass) -> (r: ParseResult<(&'a str, Self)>) {
        proof {
            use_type_invariant(&self);
        }
        let _text = window_text(self.bytes, self.start, self.end)?;
        let pos = scan_chars(self.bytes, self.start, self.end, class, false);
        match window_text(self.bytes, self.start, pos) {
            Ok(s) => {
                proof {
                    assert(self.rem().take(pos - self.start) =~= window(
                        self.bytes@,
                        self.start as int,
                        pos as int,
                    ));
                }
                Ok((s, BytesInput { bytes: self.bytes, start: pos, end: self.end }))
            },
            Err(e) => {
                assert(false);
                Err(e)
            },
        }
    }

    fn take_till(self, class: CharClass) -> (r: ParseResult<(&'a str, Self)>) {
        proof {
            use_type_invariant(&self);
        }
        let _text = window_text(self.bytes, self.start, self.end)?;
        let pos = scan_chars(self.bytes, self.start, self.end, class, true);
        match window_text(self.bytes, self.start, pos) {
            Ok(s) => {
                proof {
                    assert(self.rem().take(pos - self.start) =~= window(
                        self.bytes@,
                        self.start as int,
                        pos as int,
                    ));
                }
                Ok((s, BytesInput { bytes: self.bytes, start: pos, end: self.end }))
            },
            Err(e) => {
                assert(false);
                Err(e)
            },
        }
    }
}

impl<'a> BytesInput<'a> {
    /// Whether the cursor is well formed: a window within its bytes (every value of the type
    /// is).
    pub closed spec fn wf(self) -> bool {
        self.inv()
    }

    /// Trimming leading whitespace twice is the same as trimming it once.
    pub proof fn law_trim_start_idempotent(self)
        requires
            self.wf(),
        ensures
            self.spec_trim_start().spec_trim_start() == self.spec_trim_start(),
    {
        let k = ascii_ws_len(self.rem()) as int;
        super::cursor::lemma_ascii_ws_maximal(self.rem());
        let t = self.spec_trim_start();
        assert(t.rem() =~= self.rem().skip(k));
    }
}

} // verus!
