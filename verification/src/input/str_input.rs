//! Text input over a `&str`, measured in bytes.
use vstd::prelude::*;
use vstd::string::*;
use vstd::utf8::*;

use super::cursor::{
    class_prefix_len, first_occurrence, find_at, has_prefix_at, lemma_class_prefix_bound,
    lemma_split_at_non_continuation, lemma_till_bound, lemma_valid_prefix_rest, occurs_at,
    scan_chars, till_len, window, window_text,
};
use super::{res_model, text_res_model, Input};
use crate::error::{ErrorModel, ParseError, ParseResult};
use crate::text::{decode_at, first_char, lemma_chars_of_bytes, lemma_first_scalar_len, CharClass};
use crate::combinators::delim_nested::{
    closes_at_depth, closing_at, dist, lemma_closes_after_delimiter, lemma_closes_without_delimiter,
    nested_bounds, balanced,
};
use crate::parse::offset::ContextModel;
use crate::token::{literal_rel, Token};

verus! {

/// A cursor over a `&str`: the bytes `start..end` of the text it was made from.
///
/// Offsets and lengths count bytes, as `str` does.
#[derive(Debug, Clone, Copy)]
pub struct StrInput<'a> {
    bytes: &'a [u8],
    start: usize,
    end: usize,
}

impl<'a> StrInput<'a> {
    #[verifier::type_invariant]
    closed spec fn inv(self) -> bool {
        &&& self.start <= self.end <= self.bytes@.len()
        &&& valid_utf8(window(self.bytes@, self.start as int, self.end as int))
    }

    /// The remaining bytes.
    pub closed spec fn rem(self) -> Seq<u8> {
        window(self.bytes@, self.start as int, self.end as int)
    }

    /// The byte offset of the cursor in the text it was made from.
    pub closed spec fn offset(self) -> usize {
        self.start
    }

    /// The remaining text.
    pub open spec fn text(self) -> Seq<char> {
        decode_utf8(self.rem())
    }

    closed spec fn advanced(self, n: int) -> Self {
        StrInput { bytes: self.bytes, start: (self.start + n) as usize, end: self.end }
    }

    closed spec fn bounds_error() -> ErrorModel {
        ErrorModel::Custom("invalid input bounds while slicing string input"@)
    }

    /// A cursor over the whole of `text`.
    pub fn new(text: &'a str) -> (r: Self)
        ensures
            r.text() == text@,
            r.offset() == 0,
            r.rem() == text.spec_bytes(),
    {
        let bytes = text.as_bytes();
        proof {
            lemma_chars_of_bytes(text, bytes@);
            assert(window(bytes@, 0, bytes@.len() as int) =~= bytes@);
        }
        StrInput { bytes, start: 0, end: bytes.len() }
    }

    /// The remaining text.
    pub fn as_str(self) -> (r: &'a str)
        ensures
            r@ == self.text(),
    {
        proof {
            use_type_invariant(&self);
        }
        match window_text(self.bytes, self.start, self.end) {
            Ok(s) => s,
            Err(_) => {
                assert(false);
                ""
            },
        }
    }

    /// The byte offset of the cursor within the text it was made from.
    pub fn position(self) -> (r: usize)
        ensures
            r == self.offset(),
            self.wf(),
    {
        proof {
            use_type_invariant(&self);
        }
        self.start
    }

    pub(crate) closed spec fn spec_anchor_start(self) -> usize {
        self.start
    }
}

impl<'a> Input<'a> for StrInput<'a> {
    closed spec fn spec_len(self) -> nat {
        (self.end - self.start) as nat
    }

    closed spec fn spec_trim_start(self) -> Self {
        self.advanced(class_prefix_len(self.rem(), CharClass::Whitespace) as int)
    }

    closed spec fn spec_is_empty(self) -> bool {
        self.start == self.end
    }

    closed spec fn spec_display(self) -> Seq<char> {
        self.text()
    }

    closed spec fn spec_strip_prefix(self, prefix: Seq<char>) -> Result<Option<Self>, ErrorModel> {
        if occurs_at(self.rem(), encode_utf8(prefix), 0) {
            Ok(Some(self.advanced(encode_utf8(prefix).len() as int)))
        } else {
            Ok(None)
        }
    }

    closed spec fn spec_find(self, needle: Seq<char>) -> Result<Option<Self>, ErrorModel> {
        match first_occurrence(self.rem(), encode_utf8(needle), 0) {
            Some(i) => Ok(Some(self.advanced(i))),
            None => Ok(None),
        }
    }

    closed spec fn spec_slice_to(self, end: Self) -> Result<Self, ErrorModel> {
        if end.spec_len() > self.spec_len() {
            Err(Self::bounds_error())
        } else {
            let consumed = self.spec_len() - end.spec_len();
            if consumed < self.spec_len() && is_continuation_byte(self.rem()[consumed]) {
                Err(Self::bounds_error())
            } else {
                Ok(StrInput { bytes: self.bytes, start: self.start, end: (self.start + consumed) as usize })
            }
        }
    }

    closed spec fn spec_take_char(self) -> Result<Option<(char, Self)>, ErrorModel> {
        if self.start == self.end {
            Ok(None)
        } else {
            Ok(Some((first_char(self.rem()), self.advanced(length_of_first_scalar(self.rem())))))
        }
    }

    closed spec fn spec_take_while(self, class: CharClass) -> Result<(Seq<char>, Self), ErrorModel> {
        let k = class_prefix_len(self.rem(), class) as int;
        Ok((decode_utf8(self.rem().take(k)), self.advanced(k)))
    }

    closed spec fn spec_take_till(self, class: CharClass) -> Result<(Seq<char>, Self), ErrorModel> {
        let k = till_len(self.rem(), class) as int;
        Ok((decode_utf8(self.rem().take(k)), self.advanced(k)))
    }

    fn input_len(self) -> (r: usize) {
        proof {
            use_type_invariant(&self);
        }
        self.end - self.start
    }

    fn trim_start(self) -> (r: Self) {
        proof {
            use_type_invariant(&self);
        }
        let pos = scan_chars(self.bytes, self.start, self.end, CharClass::Whitespace, false);
        StrInput { bytes: self.bytes, start: pos, end: self.end }
    }

    fn is_empty(self) -> (r: bool) {
        self.start == self.end
    }

    fn display(self) -> (r: String) {
        self.as_str().to_owned()
    }

    fn strip_prefix(self, prefix: &str) -> (r: ParseResult<Option<Self>>) {
        proof {
            use_type_invariant(&self);
        }
        let p = prefix.as_bytes();
        if has_prefix_at(self.bytes, self.start, self.end, p) {
            proof {
                lemma_chars_of_bytes(prefix, p@);
                let w = self.rem();
                assert(w.take(p@.len() as int) =~= w.subrange(0, p@.len() as int));
                lemma_valid_prefix_rest(w, p@);
                assert(w.skip(p@.len() as int) =~= window(
                    self.bytes@,
                    self.start + p@.len(),
                    self.end as int,
                ));
            }
            Ok(Some(StrInput { bytes: self.bytes, start: self.start + p.len(), end: self.end }))
        } else {
            Ok(None)
        }
    }

    fn find(self, needle: &str) -> (r: ParseResult<Option<Self>>) {
        proof {
            use_type_invariant(&self);
        }
        let n = needle.as_bytes();
        match find_at(self.bytes, self.start, self.end, n) {
            Some(pos) => {
                proof {
                    lemma_chars_of_bytes(needle, n@);
                    let w = self.rem();
                    let i = pos - self.start;
                    super::cursor::lemma_first_occurrence(w, n@, 0);
                    assert(window(self.bytes@, pos as int, self.end as int) =~= w.skip(i));
                    if n@.len() > 0 {
                        lemma_first_scalar_len(n@);
                        assert(w[i] == w.subrange(i, i + n@.len())[0]);
                        assert(!is_continuation_byte(n@[0]));
                    } else {
                        assert(w.subrange(0, 0) =~= n@);
                        assert(i == 0);
                        if w.len() > 0 {
                            lemma_first_scalar_len(w);
                        }
                    }
                    lemma_split_at_non_continuation(w, i);
                }
                Ok(Some(StrInput { bytes: self.bytes, start: pos, end: self.end }))
            },
            None => Ok(None),
        }
    }

    fn slice_to(self, end: Self) -> (r: ParseResult<Self>) {
        proof {
            use_type_invariant(&self);
            use_type_invariant(&end);
        }
        let len = self.end - self.start;
        let end_len = end.end - end.start;
        if end_len > len {
            return Err(ParseError::custom("invalid input bounds while slicing string input"));
        }
        let consumed = len - end_len;
        if consumed < len && 0x80 <= self.bytes[self.start + consumed] && self.bytes[self.start
            + consumed] <= 0xbf {
            return Err(ParseError::custom("invalid input bounds while slicing string input"));
        }
        proof {
            let w = self.rem();
            lemma_split_at_non_continuation(w, consumed as int);
            assert(w.take(consumed as int) =~= window(
                self.bytes@,
                self.start as int,
                self.start + consumed,
            ));
        }
        Ok(StrInput { bytes: self.bytes, start: self.start, end: self.start + consumed })
    }

    fn take_char(self) -> (r: ParseResult<Option<(char, Self)>>) {
        proof {
            use_type_invariant(&self);
        }
        if self.start == self.end {
            return Ok(None);
        }
        match decode_at(self.bytes, self.start, self.end) {
            Some((c, w)) => {
                proof {
                    let rem = self.rem();
                    assert(pop_first_scalar(rem) =~= window(
                        self.bytes@,
                        self.start + w,
                        self.end as int,
                    ));
                }
                Ok(Some((c, StrInput { bytes: self.bytes, start: self.start + w, end: self.end })))
            },
            None => {
                assert(false);
                Ok(None)
            },
        }
    }

    fn take_while(self, class: CharClass) -> (r: ParseResult<(&'a str, Self)>) {
        proof {
            use_type_invariant(&self);
        }
        let pos = scan_chars(self.bytes, self.start, self.end, class, false);
        match window_text(self.bytes, self.start, pos) {
            Ok(s) => {
                proof {
                    assert(self.rem().take(pos - self.start) =~= window(
                        self.bytes@,
                        self.start as int,
                        pos as int,
                    ));
                }
                Ok((s, StrInput { bytes: self.bytes, start: pos, end: self.end }))
            },
            Err(e) => {
                assert(false);
                Err(e)
            },
        }
    }

    fn take_till(self, class: CharClass) -> (r: ParseResult<(&'a str, Self)>) {
        proof {
            use_type_invariant(&self);
        }
        let pos = scan_chars(self.bytes, self.start, self.end, class, true);
        match window_text(self.bytes, self.start, pos) {
            Ok(s) => {
                proof {
                    assert(self.rem().take(pos - self.start) =~= window(
                        self.bytes@,
                        self.start as int,
                        pos as int,
                    ));
                }
                Ok((s, StrInput { bytes: self.bytes, start: pos, end: self.end }))
            },
            Err(e) => {
                assert(false);
                Err(e)
            },
        }
    }
}

impl<'a> StrInput<'a> {
    /// Whether the cursor is well formed: a window of valid UTF-8 within its text (every
    /// value of the type is).
    pub closed spec fn wf(self) -> bool {
        self.inv()
    }

    /// Stripping a prefix and slicing up to what is left gives back the prefix.
    pub proof fn law_slice_to_after_strip_prefix(self, prefix: Seq<char>)
        requires
            self.wf(),
        ensures
            self.spec_strip_prefix(prefix) matches Ok(Some(rest)) ==> self.spec_slice_to(rest) matches Ok(
                seg,
            ) && seg.text() == prefix,
    {
        if self.spec_strip_prefix(prefix) matches Ok(Some(rest)) {
            let w = self.rem();
            let a = encode_utf8(prefix);
            encode_utf8_valid_utf8(prefix);
            encode_utf8_decode_utf8(prefix);
            assert(w.take(a.len() as int) =~= w.subrange(0, a.len() as int));
            lemma_valid_prefix_rest(w, a);
            if a.len() < w.len() {
                super::cursor::lemma_valid_not_continuation(w.skip(a.len() as int));
                assert(w.skip(a.len() as int)[0] == w[a.len() as int]);
            }
            let seg = StrInput { bytes: self.bytes, start: self.start, end: (self.start + a.len()) as usize };
            assert(seg.rem() =~= a);
        }
    }

    /// Taking the longest prefix of `class` characters splits the text in two: the taken
    /// text, all of `class`, and the rest, which does not start with a `class` character.
    pub proof fn lemma_take_while_text(self, class: CharClass)
        requires
            self.wf(),
        ensures
            self.spec_take_while(class) matches Ok((s, rest)) && self.text() == s + rest.text()
                && (forall|i: int| 0 <= i < s.len() ==> class.spec_matches(#[trigger] s[i])) && (
            rest.text().len() > 0 ==> !class.spec_matches(rest.text()[0])),
    {
        let w = self.rem();
        super::cursor::lemma_class_prefix_text(w, class);
        let k = class_prefix_len(w, class) as int;
        let rest = self.advanced(k);
        assert(rest.rem() =~= w.skip(k));
    }

    /// Trimming leading whitespace twice is the same as trimming it once.
    pub proof fn law_trim_start_idempotent(self)
        requires
            self.wf(),
        ensures
            self.spec_trim_start().spec_trim_start() == self.spec_trim_start(),
    {
        let k = class_prefix_len(self.rem(), CharClass::Whitespace) as int;
        super::cursor::lemma_class_prefix_maximal(self.rem(), CharClass::Whitespace);
        let t = self.spec_trim_start();
        assert(t.rem() =~= self.rem().skip(k));
    }
}

/// The byte of an ASCII character.
pub open spec fn ascii_byte(c: char) -> u8 {
    (c as u32) as u8
}

/// An ASCII character is encoded as its one byte.
pub proof fn lemma_encode_ascii(c: char)
    requires
        (c as u32) < 0x80,
    ensures
        encode_utf8(seq![c]) == seq![ascii_byte(c)],
{
    let v = c as u32;
    assert(seq![c].drop_first() =~= Seq::<char>::empty());
    assert((v & 0x7f) as u8 == v as u8) by (bit_vector)
        requires
            v < 0x80,
    ;
    assert(has_width_1_encoding(v));
    assert(encode_utf8(Seq::<char>::empty()) =~= Seq::<u8>::empty());
    assert(encode_scalar(v) =~= seq![leading_byte_width_1(v)]);
    assert(encode_utf8(seq![c]) =~= encode_scalar(seq![c][0] as u32) + encode_utf8(seq![c].drop_first()));
    assert(encode_utf8(seq![c]) =~= seq![ascii_byte(c)]);
}

/// Two different ASCII characters have different bytes.
pub proof fn lemma_ascii_bytes_differ(l: char, r: char)
    requires
        (l as u32) < 0x80,
        (r as u32) < 0x80,
        l != r,
    ensures
        ascii_byte(l) != ascii_byte(r),
        ascii_byte(l) < 0x80,
{
    let a = l as u32;
    let b = r as u32;
    assert(a != b);
    assert(a < 0x80 && b < 0x80 && a != b ==> (a as u8) != (b as u8) && (a as u8) < 0x80) by (bit_vector);
}

impl<'a> StrInput<'a> {
    closed spec fn bounded(self) -> bool {
        self.start <= self.end <= self.bytes@.len()
    }

    /// Where a one-byte needle first occurs.
    proof fn lemma_find_byte(self, c: char)
        requires
            self.bounded(),
            (c as u32) < 0x80,
        ensures
            match self.spec_find(seq![c]) {
                Ok(Some(at)) => exists|i: int|
                    0 <= i < self.rem().len() && self.rem()[i] == ascii_byte(c) && (forall|j: int|
                        0 <= j < i ==> self.rem()[j] != ascii_byte(c)) && at == self.advanced(i),
                Ok(None) => forall|j: int| 0 <= j < self.rem().len() ==> self.rem()[j] != ascii_byte(c),
                Err(_) => false,
            },
    {
        lemma_encode_ascii(c);
        let w = self.rem();
        let n = seq![ascii_byte(c)];
        super::cursor::lemma_first_occurrence(w, n, 0);
        assert forall|j: int| 0 <= j < w.len() implies occurs_at(w, n, j) == (w[j] == ascii_byte(c)) by {
            if w[j] == ascii_byte(c) {
                assert(w.subrange(j, j + 1) =~= n);
            } else {
                assert(w.subrange(j, j + 1)[0] == w[j]);
            }
        }
        match first_occurrence(w, n, 0) {
            Some(i) => {
                assert(forall|j: int| 0 <= j < i ==> !occurs_at(w, n, j));
            },
            None => {
                assert(forall|j: int| 0 <= j ==> !occurs_at(w, n, j));
            },
        }
    }

    /// The input after an ASCII character it starts with.
    proof fn lemma_literal_ascii(self, c: char, ctx: ContextModel)
        requires
            self.bounded(),
            (c as u32) < 0x80,
            self.rem().len() > 0,
            self.rem()[0] == ascii_byte(c),
        ensures
            literal_rel(seq![c], self, ctx) == Ok::<Self, ErrorModel>(self.advanced(1)),
    {
        lemma_encode_ascii(c);
        assert(self.rem().subrange(0, 1) =~= seq![ascii_byte(c)]);
    }

    /// A nested pair over ASCII delimiters `l` and `r` around a balanced text `s`: the pair
    /// opens after `l`, closes at the `r` right after `s`, its inner text is exactly `s`, and
    /// what follows the closing `r` is `t`.
    pub proof fn lemma_nested_balanced<L: Token, R: Token>(
        self,
        l: char,
        r: char,
        s: Seq<u8>,
        t: Seq<u8>,
        ctx: ContextModel,
    )
        requires
            self.wf(),
            L::spec_value() == seq![l],
            R::spec_value() == seq![r],
            (l as u32) < 0x80,
            (r as u32) < 0x80,
            l != r,
            self.rem() == seq![ascii_byte(l)] + s + seq![ascii_byte(r)] + t,
            balanced(s, ascii_byte(l), ascii_byte(r)),
        ensures
            match nested_bounds::<Self, L, R>(self, ctx) {
                Ok((cursor, close)) => match cursor.spec_slice_to(close) {
                    Ok(seg) => seg.rem() == s && match literal_rel(R::spec_value(), close, ctx) {
                        Ok(rest) => rest.rem() == t,
                        Err(_) => false,
                    },
                    Err(_) => false,
                },
                Err(_) => false,
            },
    {
        lemma_ascii_bytes_differ(l, r);
        lemma_ascii_bytes_differ(r, l);
        let lb = ascii_byte(l);
        let rb = ascii_byte(r);
        assert(seq![l][0] != seq![r][0]);
        assert(seq![l] != seq![r]);
        let w = self.rem();
        assert(w[0] == lb);
        self.lemma_literal_ascii(l, ctx);
        let cursor = self.advanced(1);
        assert(cursor.rem() =~= w.skip(1));
        assert(w.skip(1) =~= s + seq![rb] + t);
        cursor.lemma_closing_at_balanced(l, r, s, t, 1, ctx);
        let close = cursor.advanced(s.len() as int);
        assert(close.rem() =~= w.skip(1 + s.len() as int));
        assert(w.skip(1 + s.len() as int) =~= seq![rb] + t);
        assert(!is_continuation_byte(rb)) by {
            assert(rb < 0x80 ==> !(0x80 <= rb && rb <= 0xbf));
        }
        assert(cursor.rem()[s.len() as int] == rb);
        let seg = StrInput { bytes: cursor.bytes, start: cursor.start, end: (cursor.start + s.len()) as usize };
        assert(seg.rem() =~= s);
        close.lemma_literal_ascii(r, ctx);
        assert(close.advanced(1).rem() =~= w.skip(2 + s.len() as int));
        assert(w.skip(2 + s.len() as int) =~= t);
    }

    /// Scanning for the matching closing delimiter: when the text is `u` and then the closing
    /// byte, and `u` closes the level open at depth `d`, the closing delimiter is found right
    /// after `u`.
    #[verifier::rlimit(80)]
    #[verifier::spinoff_prover]
    proof fn lemma_closing_at_balanced(
        self,
        l: char,
        r: char,
        u: Seq<u8>,
        t: Seq<u8>,
        d: nat,
        ctx: ContextModel,
    )
        requires
            self.bounded(),
            (l as u32) < 0x80,
            (r as u32) < 0x80,
            l != r,
            d >= 1,
            self.rem() == u + seq![ascii_byte(r)] + t,
            closes_at_depth(u, ascii_byte(l), ascii_byte(r), d as int),
        ensures
            closing_at(seq![l], seq![r], self, d, ctx) == Ok::<Self, ErrorModel>(
                self.advanced(u.len() as int),
            ),
        decreases u.len(),
    {
        lemma_ascii_bytes_differ(l, r);
        lemma_ascii_bytes_differ(r, l);
        let lb = ascii_byte(l);
        let rb = ascii_byte(r);
        let w = self.rem();
        assert(w[u.len() as int] == rb);
        self.lemma_find_byte(l);
        self.lemma_find_byte(r);
        lemma_encode_ascii(l);
        lemma_encode_ascii(r);
        let nr = self.spec_find(seq![r]);
        let nl = self.spec_find(seq![l]);
        let ir = choose|i: int|
            0 <= i < w.len() && w[i] == rb && (forall|j: int| 0 <= j < i ==> w[j] != rb) && nr
                == Ok::<Option<Self>, ErrorModel>(Some(self.advanced(i)));
        assert(ir <= u.len()) by {
            if ir > u.len() {
                assert(w[u.len() as int] != rb);
            }
        }
        let open_first = match nl {
            Ok(Some(_)) => {
                let il = choose|i: int|
                    0 <= i < w.len() && w[i] == lb && (forall|j: int| 0 <= j < i ==> w[j] != lb)
                        && nl == Ok::<Option<Self>, ErrorModel>(Some(self.advanced(i)));
                il < ir
            },
            _ => false,
        };
        if open_first {
            let il = choose|i: int|
                0 <= i < w.len() && w[i] == lb && (forall|j: int| 0 <= j < i ==> w[j] != lb)
                    && nl == Ok::<Option<Self>, ErrorModel>(Some(self.advanced(i)));
            let la = self.advanced(il);
            assert(dist(self, la) == il);
            assert(dist(self, self.advanced(ir)) == ir);
            assert(la.rem() =~= w.skip(il));
            la.lemma_literal_ascii(l, ctx);
            let rest = la.advanced(1);
            assert(rest == self.advanced(il + 1));
            assert(u[il] == lb);
            assert forall|j: int| 0 <= j < il implies u[j] != lb && u[j] != rb by {
                assert(w[j] == u[j]);
            }
            lemma_closes_after_delimiter(u, lb, rb, d as int, il);
            let u2 = u.skip(il + 1);
            assert(rest.rem() =~= w.skip(il + 1));
            assert(w.skip(il + 1) =~= u2 + seq![rb] + t);
            rest.lemma_closing_at_balanced(l, r, u2, t, d + 1, ctx);
            assert(rest.advanced(u2.len() as int) == self.advanced(u.len() as int));
        } else {
            let ra = self.advanced(ir);
            assert(ra.rem() =~= w.skip(ir));
            match nl {
                Ok(Some(_)) => {
                    let il = choose|i: int|
                        0 <= i < w.len() && w[i] == lb && (forall|j: int| 0 <= j < i ==> w[j] != lb)
                            && nl == Ok::<Option<Self>, ErrorModel>(Some(self.advanced(i)));
                    assert(il != ir);
                    assert(dist(self, self.advanced(il)) == il);
                    assert(dist(self, ra) == ir);
                },
                _ => {},
            }
            assert forall|j: int| 0 <= j < ir implies w[j] != lb && w[j] != rb by {
                match nl {
                    Ok(Some(_)) => {
                        let il = choose|i: int|
                            0 <= i < w.len() && w[i] == lb && (forall|j: int| 0 <= j < i ==> w[j]
                                != lb) && nl == Ok::<Option<Self>, ErrorModel>(Some(self.advanced(i)));
                        assert(ir <= il);
                    },
                    _ => {},
                }
            }
            if ir == u.len() {
                assert forall|j: int| 0 <= j < u.len() implies u[j] != lb && u[j] != rb by {
                    assert(w[j] == u[j]);
                }
                lemma_closes_without_delimiter(u, lb, rb, d as int);
            } else {
                assert(u[ir] == rb);
                assert forall|j: int| 0 <= j < ir implies u[j] != lb && u[j] != rb by {
                    assert(w[j] == u[j]);
                }
                lemma_closes_after_delimiter(u, lb, rb, d as int, ir);
                ra.lemma_literal_ascii(r, ctx);
                let rest = ra.advanced(1);
                assert(rest == self.advanced(ir + 1));
                let u2 = u.skip(ir + 1);
                assert(rest.rem() =~= w.skip(ir + 1));
                assert(w.skip(ir + 1) =~= u2 + seq![rb] + t);
                rest.lemma_closing_at_balanced(l, r, u2, t, (d - 1) as nat, ctx);
                assert(rest.advanced(u2.len() as int) == self.advanced(u.len() as int));
            }
        }
    }
}

} // verus!
