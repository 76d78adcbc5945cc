//! Scanning operations over a window `bytes[start..end]` of UTF-8 (or raw) bytes, shared by
//! the textual inputs.
use vstd::prelude::*;
use vstd::utf8::*;
use vstd::string::*;

use crate::error::{ErrorModel, ParseError};
use crate::text::{
    first_char, lemma_first_scalar_len, spec_is_ascii_whitespace_byte, std_str_from_utf8,
    utf8_error_text, decode_at, is_ascii_whitespace_byte, CharClass,
};

verus! {

/// The window `[start, end)` of `bytes`.
pub open spec fn window(bytes: Seq<u8>, start: int, end: int) -> Seq<u8> {
    bytes.subrange(start, end)
}

/// The byte length of the longest prefix of `b` whose characters all belong to `class`.
pub open spec fn class_prefix_len(b: Seq<u8>, class: CharClass) -> nat
    decreases b.len(),
{
    if b.len() == 0 || !valid_first_scalar(b) {
        0
    } else if class.spec_matches(first_char(b)) {
        proof {
            lemma_first_scalar_len(b);
        }
        (length_of_first_scalar(b) + class_prefix_len(pop_first_scalar(b), class)) as nat
    } else {
        0
    }
}

/// The byte length of the longest prefix of `b` none of whose characters belongs to `class`.
pub open spec fn till_len(b: Seq<u8>, class: CharClass) -> nat
    decreases b.len(),
{
    if b.len() == 0 || !valid_first_scalar(b) {
        0
    } else if class.spec_matches(first_char(b)) {
        0
    } else {
        proof {
            lemma_first_scalar_len(b);
        }
        (length_of_first_scalar(b) + till_len(pop_first_scalar(b), class)) as nat
    }
}

/// The number of leading ASCII whitespace bytes of `b`.
pub open spec fn ascii_ws_len(b: Seq<u8>) -> nat
    decreases b.len(),
{
    if b.len() > 0 && spec_is_ascii_whitespace_byte(b[0]) {
        1 + ascii_ws_len(b.drop_first())
    } else {
        0
    }
}

/// Whether `needle` occurs in `hay` at byte `i`.
pub open spec fn occurs_at(hay: Seq<u8>, needle: Seq<u8>, i: int) -> bool {
    0 <= i && i + needle.len() <= hay.len() && hay.subrange(i, i + needle.len()) == needle
}

/// The first index at or after `from` where `needle` occurs in `hay`.
pub open spec fn first_occurrence(hay: Seq<u8>, needle: Seq<u8>, from: int) -> Option<int>
    decreases hay.len() + 1 - from,
{
    if from < 0 || from + needle.len() > hay.len() {
        None
    } else if occurs_at(hay, needle, from) {
        Some(from)
    } else {
        first_occurrence(hay, needle, from + 1)
    }
}

pub proof fn lemma_first_occurrence(hay: Seq<u8>, needle: Seq<u8>, from: int)
    requires
        0 <= from,
    ensures
        first_occurrence(hay, needle, from) matches Some(i) ==> from <= i && occurs_at(
            hay,
            needle,
            i,
        ) && forall|j: int| from <= j < i ==> !occurs_at(hay, needle, j),
        first_occurrence(hay, needle, from) is None ==> forall|j: int|
            from <= j ==> !occurs_at(hay, needle, j),
    decreases hay.len() + 1 - from,
{
    if from < 0 || from + needle.len() > hay.len() {
    } else if occurs_at(hay, needle, from) {
    } else if needle.len() == 0 {
        assert(hay.subrange(from, from) =~= needle);
    } else {
        lemma_first_occurrence(hay, needle, from + 1);
    }
}

/// The error reported for bytes that are not valid UTF-8.
pub open spec fn utf8_error(b: Seq<u8>) -> ErrorModel {
    ErrorModel::Custom("invalid UTF-8 input: "@ + utf8_error_text(b))
}

pub proof fn lemma_valid_first_scalar_prefix(b: Seq<u8>, c: Seq<u8>)
    requires
        valid_first_scalar(b),
        length_of_first_scalar(b) <= c.len(),
        c.take(length_of_first_scalar(b)) == b.take(length_of_first_scalar(b)),
    ensures
        valid_first_scalar(c),
        length_of_first_scalar(c) == length_of_first_scalar(b),
        decode_first_scalar(c) == decode_first_scalar(b),
{
    let l = length_of_first_scalar(b);
    assert(c[0] == b.take(l)[0]);
    if l >= 2 {
        assert(c[1] == b.take(l)[1]);
    }
    if l >= 3 {
        assert(c[2] == b.take(l)[2]);
    }
    if l >= 4 {
        assert(c[3] == b.take(l)[3]);
    }
}

/// A position of a valid UTF-8 sequence that does not hold a continuation byte splits it into
/// two valid sequences.
pub proof fn lemma_split_at_non_continuation(b: Seq<u8>, i: int)
    requires
        valid_utf8(b),
        0 <= i <= b.len(),
        i == b.len() || !is_continuation_byte(b[i]),
    ensures
        valid_utf8(b.take(i)),
        valid_utf8(b.skip(i)),
    decreases b.len(),
{
    if i == 0 {
        assert(b.skip(0) =~= b);
        assert(b.take(0) =~= Seq::<u8>::empty());
    } else if i == b.len() {
        assert(b.take(i) =~= b);
        assert(b.skip(i) =~= Seq::<u8>::empty());
    } else {
        lemma_first_scalar_len(b);
        let l = length_of_first_scalar(b);
        if i < l {
            assert(is_continuation_byte(b[i]));
        } else {
            let rest = pop_first_scalar(b);
            lemma_split_at_non_continuation(rest, i - l);
            assert(rest.skip(i - l) =~= b.skip(i));
            let head = b.take(l);
            reveal_with_fuel(valid_utf8, 2);
            assert(pop_first_scalar(head) =~= Seq::<u8>::empty());
            assert(valid_utf8(head));
            assert(b.take(i) =~= head + rest.take(i - l));
            valid_utf8_concat(head, rest.take(i - l));
        }
    }
}

/// If a valid sequence starts with another valid sequence, what follows is valid too.
pub proof fn lemma_valid_prefix_rest(b: Seq<u8>, a: Seq<u8>)
    requires
        valid_utf8(b),
        valid_utf8(a),
        a.len() <= b.len(),
        b.take(a.len() as int) == a,
    ensures
        valid_utf8(b.skip(a.len() as int)),
    decreases a.len(),
{
    if a.len() == 0 {
        assert(b.skip(0) =~= b);
    } else {
        lemma_first_scalar_len(a);
        let l = length_of_first_scalar(a);
        assert(a.take(l) =~= b.take(a.len() as int).take(l));
        assert(b.take(l) =~= b.take(a.len() as int).take(l));
        lemma_valid_first_scalar_prefix(a, b);
        let ra = pop_first_scalar(a);
        let rb = pop_first_scalar(b);
        assert(rb.take(ra.len() as int) =~= ra);
        lemma_valid_prefix_rest(rb, ra);
        assert(rb.skip(ra.len() as int) =~= b.skip(a.len() as int));
    }
}

/// A non-empty valid UTF-8 sequence does not start with a continuation byte.
pub proof fn lemma_valid_not_continuation(b: Seq<u8>)
    requires
        valid_utf8(b),
        b.len() > 0,
    ensures
        !is_continuation_byte(b[0]),
{
    assert(valid_first_scalar(b));
    let x = b[0];
    assert(is_leading_byte_width_1(x) || is_leading_byte_width_2(x) || is_leading_byte_width_3(x)
        || is_leading_byte_width_4(x));
    assert((is_leading_byte_width_1(x) || is_leading_byte_width_2(x) || is_leading_byte_width_3(x)
        || is_leading_byte_width_4(x)) ==> !is_continuation_byte(x)) by (bit_vector);
}

/// After the longest prefix of `class` characters, no `class` character follows.
pub proof fn lemma_class_prefix_maximal(b: Seq<u8>, class: CharClass)
    ensures
        class_prefix_len(b, class) <= b.len(),
        class_prefix_len(b.skip(class_prefix_len(b, class) as int), class) == 0,
    decreases b.len(),
{
    lemma_class_prefix_bound(b, class);
    if b.len() == 0 || !valid_first_scalar(b) || !class.spec_matches(first_char(b)) {
        assert(b.skip(0) =~= b);
    } else {
        lemma_first_scalar_len(b);
        let l = length_of_first_scalar(b);
        let p = pop_first_scalar(b);
        lemma_class_prefix_maximal(p, class);
        let k = class_prefix_len(p, class) as int;
        assert(b.skip(l + k) =~= p.skip(k));
    }
}

pub proof fn lemma_class_prefix_bound(b: Seq<u8>, class: CharClass)
    ensures
        class_prefix_len(b, class) <= b.len(),
    decreases b.len(),
{
    if b.len() > 0 && valid_first_scalar(b) && class.spec_matches(first_char(b)) {
        lemma_first_scalar_len(b);
        lemma_class_prefix_bound(pop_first_scalar(b), class);
    }
}

pub proof fn lemma_till_bound(b: Seq<u8>, class: CharClass)
    ensures
        till_len(b, class) <= b.len(),
    decreases b.len(),
{
    if b.len() > 0 && valid_first_scalar(b) && !class.spec_matches(first_char(b)) {
        lemma_first_scalar_len(b);
        lemma_till_bound(pop_first_scalar(b), class);
    }
}

/// After the leading ASCII whitespace, no ASCII whitespace byte follows.
pub proof fn lemma_ascii_ws_maximal(b: Seq<u8>)
    ensures
        ascii_ws_len(b) <= b.len(),
        ascii_ws_len(b.skip(ascii_ws_len(b) as int)) == 0,
    decreases b.len(),
{
    lemma_ascii_ws_bound(b);
    if b.len() > 0 && spec_is_ascii_whitespace_byte(b[0]) {
        lemma_ascii_ws_maximal(b.drop_first());
        let k = ascii_ws_len(b.drop_first()) as int;
        assert(b.skip(1 + k) =~= b.drop_first().skip(k));
    } else {
        assert(b.skip(0) =~= b);
    }
}

pub proof fn lemma_ascii_ws_bound(b: Seq<u8>)
    ensures
        ascii_ws_len(b) <= b.len(),
    decreases b.len(),
{
    if b.len() > 0 && spec_is_ascii_whitespace_byte(b[0]) {
        lemma_ascii_ws_bound(b.drop_first());
    }
}

/// Advances over the characters of `bytes[start..end]` that belong to `class` (`stop_in` false)
/// or that do not belong to it (`stop_in` true), while they decode.
pub fn scan_chars(bytes: &[u8], start: usize, end: usize, class: CharClass, stop_in: bool) -> (r:
    usize)
    requires
        start <= end <= bytes@.len(),
    ensures
        !stop_in ==> r == start + class_prefix_len(window(bytes@, start as int, end as int), class),
        stop_in ==> r == start + till_len(window(bytes@, start as int, end as int), class),
        start <= r <= end,
        valid_utf8(window(bytes@, start as int, end as int)) ==> valid_utf8(
            window(bytes@, start as int, r as int),
        ) && valid_utf8(window(bytes@, r as int, end as int)),
{
    let ghost w = window(bytes@, start as int, end as int);
    let mut pos = start;
    proof {
        assert(window(bytes@, start as int, start as int) =~= Seq::<u8>::empty());
        assert(window(bytes@, pos as int, end as int) =~= w);
    }
    while pos < end
        invariant_except_break
            start <= pos <= end <= bytes@.len(),
            !stop_in ==> class_prefix_len(w, class) == (pos - start) + class_prefix_len(
                window(bytes@, pos as int, end as int),
                class,
            ),
            stop_in ==> till_len(w, class) == (pos - start) + till_len(
                window(bytes@, pos as int, end as int),
                class,
            ),
            valid_utf8(w) ==> valid_utf8(window(bytes@, start as int, pos as int)) && valid_utf8(
                window(bytes@, pos as int, end as int),
            ),
            w == window(bytes@, start as int, end as int),
        ensures
            start <= pos <= end,
            !stop_in ==> class_prefix_len(w, class) == pos - start,
            stop_in ==> till_len(w, class) == pos - start,
            valid_utf8(w) ==> valid_utf8(window(bytes@, start as int, pos as int)) && valid_utf8(
                window(bytes@, pos as int, end as int),
            ),
        decreases end - pos,
    {
        let ghost rest = window(bytes@, pos as int, end as int);
        match decode_at(bytes, pos, end) {
            None => {
                proof {
                    reveal_with_fuel(valid_utf8, 1);
                }
                break;
            },
            Some((c, w_len)) => {
                let hit = class.matches(c);
                if hit == stop_in {
                    break;
                }
                proof {
                    lemma_first_scalar_len(rest);
                    assert(pop_first_scalar(rest) =~= window(
                        bytes@,
                        pos + w_len,
                        end as int,
                    ));
                    if valid_utf8(w) {
                        let prev = window(bytes@, start as int, pos as int);
                        let scalar = rest.take(w_len as int);
                        reveal_with_fuel(valid_utf8, 2);
                        assert(pop_first_scalar(scalar) =~= Seq::<u8>::empty());
                        assert(valid_utf8(scalar));
                        valid_utf8_concat(prev, scalar);
                        assert(prev + scalar =~= window(bytes@, start as int, pos + w_len));
                    }
                }
                pos = pos + w_len;
            },
        }
    }
    pos
}

/// Advances over the ASCII whitespace bytes at the start of `bytes[start..end]`.
pub fn scan_ascii_whitespace(bytes: &[u8], start: usize, end: usize) -> (r: usize)
    requires
        start <= end <= bytes@.len(),
    ensures
        r == start + ascii_ws_len(window(bytes@, start as int, end as int)),
        r <= end,
{
    let ghost w = window(bytes@, start as int, end as int);
    let mut pos = start;
    proof {
        assert(window(bytes@, pos as int, end as int) =~= w);
    }
    while pos < end && is_ascii_whitespace_byte(bytes[pos])
        invariant
            start <= pos <= end <= bytes@.len(),
            ascii_ws_len(w) == (pos - start) + ascii_ws_len(window(bytes@, pos as int, end as int)),
        decreases end - pos,
    {
        proof {
            let rest = window(bytes@, pos as int, end as int);
            assert(rest.drop_first() =~= window(bytes@, pos + 1, end as int));
        }
        pos = pos + 1;
    }
    pos
}

/// Whether `bytes[start..end]` begins with `prefix`.
pub fn has_prefix_at(bytes: &[u8], start: usize, end: usize, prefix: &[u8]) -> (r: bool)
    requires
        start <= end <= bytes@.len(),
    ensures
        r == occurs_at(window(bytes@, start as int, end as int), prefix@, 0),
{
    let ghost w = window(bytes@, start as int, end as int);
    if prefix.len() > end - start {
        return false;
    }
    let mut i: usize = 0;
    while i < prefix.len()
        invariant
            prefix@.len() <= end - start,
            start <= end <= bytes@.len(),
            i <= prefix@.len(),
            w == window(bytes@, start as int, end as int),
            forall|j: int| 0 <= j < i ==> w[j] == prefix@[j],
        decreases prefix@.len() - i,
    {
        if bytes[start + i] != prefix[i] {
            assert(w.subrange(0, prefix@.len() as int)[i as int] != prefix@[i as int]);
            return false;
        }
        i = i + 1;
    }
    assert(w.subrange(0, prefix@.len() as int) =~= prefix@);
    true
}

/// The first position in `bytes[start..end]` (as an index into `bytes`) where `needle` occurs.
pub fn find_at(bytes: &[u8], start: usize, end: usize, needle: &[u8]) -> (r: Option<usize>)
    requires
        start <= end <= bytes@.len(),
    ensures
        ({
            let w = window(bytes@, start as int, end as int);
            match first_occurrence(w, needle@, 0) {
                Some(i) => r == Some((start + i) as usize),
                None => r is None,
            }
        }),
{
    let ghost w = window(bytes@, start as int, end as int);
    if needle.len() > end - start {
        return None;
    }
    let last = end - needle.len();
    let mut pos = start;
    while pos <= last
        invariant
            start <= pos,
            last == end - needle@.len(),
            start <= end <= bytes@.len(),
            needle@.len() <= end - start,
            w == window(bytes@, start as int, end as int),
            first_occurrence(w, needle@, 0) == first_occurrence(w, needle@, pos - start),
        decreases last + 1 - pos,
    {
        let ghost i = pos - start;
        let found = has_prefix_at(bytes, pos, end, needle);
        proof {
            let rest = window(bytes@, pos as int, end as int);
            if found {
                assert(rest.subrange(0, needle@.len() as int) =~= w.subrange(i, i + needle@.len()));
            } else {
                if occurs_at(w, needle@, i) {
                    assert(rest.subrange(0, needle@.len() as int) =~= w.subrange(
                        i,
                        i + needle@.len(),
                    ));
                }
            }
        }
        if found {
            return Some(pos);
        }
        if pos == last {
            proof {
                assert(first_occurrence(w, needle@, pos - start + 1) is None);
            }
            return None;
        }
        pos = pos + 1;
    }
    None
}

/// Checks that `bytes[start..end]` is UTF-8 and returns it as text, or the error for it.
pub fn window_text<'a>(bytes: &'a [u8], start: usize, end: usize) -> (r: Result<&'a str, ParseError>)
    requires
        start <= end <= bytes@.len(),
    ensures
        ({
            let w = window(bytes@, start as int, end as int);
            &&& r is Ok <==> valid_utf8(w)
            &&& r matches Ok(s) ==> s@ == decode_utf8(w) && s.spec_bytes() == w
            &&& r matches Err(e) ==> e@ == utf8_error(w)
        }),
{
    let slice = vstd::slice::slice_subrange(bytes, start, end);
    match std_str_from_utf8(slice) {
        Ok(s) => {
            proof {
                crate::text::lemma_chars_of_bytes(s, slice@);
            }
            Ok(s)
        },
        Err(text) => {
            let mut msg = "invalid UTF-8 input: ".to_owned();
            msg.append(text.as_str());
            Err(ParseError::custom_owned(msg))
        },
    }
}

/// Decoding two valid sequences one after the other decodes each in turn.
pub proof fn lemma_decode_concat(a: Seq<u8>, b: Seq<u8>)
    requires
        valid_utf8(a),
        valid_utf8(b),
    ensures
        valid_utf8(a + b),
        decode_utf8(a + b) == decode_utf8(a) + decode_utf8(b),
    decreases a.len(),
{
    valid_utf8_concat(a, b);
    if a.len() == 0 {
        assert(a + b =~= b);
        assert(decode_utf8(a) =~= Seq::<char>::empty());
        assert(decode_utf8(a) + decode_utf8(b) =~= decode_utf8(b));
    } else {
        lemma_first_scalar_len(a);
        let l = length_of_first_scalar(a);
        let ab = a + b;
        assert(ab.take(l) =~= a.take(l));
        lemma_valid_first_scalar_prefix(a, ab);
        let pa = pop_first_scalar(a);
        assert(pop_first_scalar(ab) =~= pa + b);
        lemma_decode_concat(pa, b);
        assert(decode_utf8(ab) =~= seq![decode_first_scalar(ab) as char] + decode_utf8(pa + b));
        assert(decode_utf8(a) =~= seq![decode_first_scalar(a) as char] + decode_utf8(pa));
        assert(decode_utf8(ab) =~= decode_utf8(a) + decode_utf8(b));
    }
}

/// The longest prefix of `class` characters of valid UTF-8 `b` splits it into two valid
/// parts: the text of the first is all `class` characters, and the text of the second does
/// not start with one.
pub proof fn lemma_class_prefix_text(b: Seq<u8>, class: CharClass)
    requires
        valid_utf8(b),
    ensures
        ({
            let k = class_prefix_len(b, class) as int;
            let head = decode_utf8(b.take(k));
            let tail = decode_utf8(b.skip(k));
            &&& k <= b.len()
            &&& valid_utf8(b.take(k))
            &&& valid_utf8(b.skip(k))
            &&& decode_utf8(b) == head + tail
            &&& forall|i: int| 0 <= i < head.len() ==> class.spec_matches(#[trigger] head[i])
            &&& tail.len() > 0 ==> !class.spec_matches(tail[0])
        }),
    decreases b.len(),
{
    lemma_class_prefix_bound(b, class);
    let k = class_prefix_len(b, class) as int;
    if b.len() == 0 || !class.spec_matches(first_char(b)) {
        assert(k == 0);
        assert(b.take(0) =~= Seq::<u8>::empty());
        assert(b.skip(0) =~= b);
        assert(decode_utf8(b.take(0)) =~= Seq::<char>::empty());
        assert(decode_utf8(b.take(0)) + decode_utf8(b) =~= decode_utf8(b));
        if b.len() > 0 {
            assert(decode_utf8(b)[0] == first_char(b));
        }
    } else {
        lemma_first_scalar_len(b);
        let l = length_of_first_scalar(b);
        let p = pop_first_scalar(b);
        lemma_class_prefix_text(p, class);
        let kp = class_prefix_len(p, class) as int;
        assert(k == l + kp);
        let h = b.take(l);
        assert(h.take(l) =~= b.take(l));
        lemma_valid_first_scalar_prefix(b, h);
        assert(pop_first_scalar(h) =~= Seq::<u8>::empty());
        reveal_with_fuel(valid_utf8, 2);
        assert(valid_utf8(h));
        assert(decode_utf8(pop_first_scalar(h)) =~= Seq::<char>::empty());
        assert(decode_utf8(h) =~= seq![first_char(b)]);
        assert(b.take(k) =~= h + p.take(kp));
        assert(b.skip(k) =~= p.skip(kp));
        lemma_decode_concat(h, p.take(kp));
        let head = decode_utf8(b.take(k));
        let headp = decode_utf8(p.take(kp));
        assert(head =~= seq![first_char(b)] + headp);
        assert(decode_utf8(b) =~= seq![first_char(b)] + decode_utf8(p));
        assert(decode_utf8(b) =~= head + decode_utf8(b.skip(k)));
        assert forall|i: int| 0 <= i < head.len() implies class.spec_matches(#[trigger] head[i]) by {
            if i > 0 {
                assert(head[i] == headp[i - 1]);
            }
        }
    }
}

} // verus!
