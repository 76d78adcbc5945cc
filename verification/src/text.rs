//! Character classes, UTF-8 decoding over byte slices, and small string builders.
use vstd::prelude::*;
use vstd::utf8::*;
use vstd::string::*;
use std::borrow::Cow;

verus! {

broadcast use {vstd::utf8::char_u32_cast, vstd::utf8::char_is_scalar};

// ---------------------------------------------------------------------------
// Unicode properties provided by `char` in std
// ---------------------------------------------------------------------------

/// The Unicode `White_Space` property, which `char::is_whitespace` reports: U+0009 to U+000D,
/// U+0020, U+0085, U+00A0, U+1680, U+2000 to U+200A, U+2028, U+2029, U+202F, U+205F and
/// U+3000.
pub open spec fn char_is_whitespace(c: char) -> bool {
    let v = c as u32;
    ||| 0x9 <= v <= 0xd
    ||| v == 0x20
    ||| v == 0x85
    ||| v == 0xa0
    ||| v == 0x1680
    ||| 0x2000 <= v <= 0x200a
    ||| v == 0x2028
    ||| v == 0x2029
    ||| v == 0x202f
    ||| v == 0x205f
    ||| v == 0x3000
}

/// The Unicode `Alphabetic` property, as `char::is_alphabetic` reports it.
pub uninterp spec fn char_is_alphabetic(c: char) -> bool;

/// `Alphabetic` or `Numeric`, as `char::is_alphanumeric` reports it.
pub uninterp spec fn char_is_alphanumeric(c: char) -> bool;

/// The general category `Cc`, which `char::is_control` reports: U+0000 to U+001F and U+007F
/// to U+009F.
pub open spec fn char_is_control(c: char) -> bool {
    let v = c as u32;
    v <= 0x1f || 0x7f <= v <= 0x9f
}

/// The Unicode `Uppercase` property, as `char::is_uppercase` reports it.
pub uninterp spec fn char_is_uppercase(c: char) -> bool;

/// The Unicode `Lowercase` property, as `char::is_lowercase` reports it.
pub uninterp spec fn char_is_lowercase(c: char) -> bool;

/// The `White_Space` property of `c`.
fn is_white_space(c: char) -> (r: bool)
    ensures
        r == char_is_whitespace(c),
{
    let v = c as u32;
    (0x9 <= v && v <= 0xd) || v == 0x20 || v == 0x85 || v == 0xa0 || v == 0x1680 || (0x2000 <= v
        && v <= 0x200a) || v == 0x2028 || v == 0x2029 || v == 0x202f || v == 0x205f || v == 0x3000
}

/// Calls `char::is_alphabetic`; the result is the `Alphabetic` property of `c`.
#[verifier::external_body]
fn std_is_alphabetic(c: char) -> (r: bool)
    ensures
        r == char_is_alphabetic(c),
{
    c.is_alphabetic()
}

/// Calls `char::is_alphanumeric`; the result is `Alphabetic` or `Numeric` of `c`.
#[verifier::external_body]
fn std_is_alphanumeric(c: char) -> (r: bool)
    ensures
        r == char_is_alphanumeric(c),
{
    c.is_alphanumeric()
}

/// Whether `c` is in the general category `Cc`.
fn is_control_char(c: char) -> (r: bool)
    ensures
        r == char_is_control(c),
{
    let v = c as u32;
    v <= 0x1f || (0x7f <= v && v <= 0x9f)
}

/// Calls `char::is_uppercase`; the result is the `Uppercase` property of `c`.
#[verifier::external_body]
fn std_is_uppercase(c: char) -> (r: bool)
    ensures
        r == char_is_uppercase(c),
{
    c.is_uppercase()
}

/// Calls `char::is_lowercase`; the result is the `Lowercase` property of `c`.
#[verifier::external_body]
fn std_is_lowercase(c: char) -> (r: bool)
    ensures
        r == char_is_lowercase(c),
{
    c.is_lowercase()
}

/// Calls `char::from_u32`: `Some` exactly for Unicode scalar values, holding that value.
#[verifier::external_body]
fn std_char_from_u32(v: u32) -> (r: Option<char>)
    ensures
        r is Some <==> is_scalar(v),
        r matches Some(c) ==> c as u32 == v,
{
    char::from_u32(v)
}

// ---------------------------------------------------------------------------
// ASCII classification (documented ranges)
// ---------------------------------------------------------------------------

pub open spec fn spec_is_ascii_digit(c: char) -> bool {
    '0' <= c <= '9'
}

pub open spec fn spec_is_ascii_alpha(c: char) -> bool {
    ('a' <= c <= 'z') || ('A' <= c <= 'Z')
}

pub open spec fn spec_is_ascii_alphanumeric(c: char) -> bool {
    spec_is_ascii_digit(c) || spec_is_ascii_alpha(c)
}

pub open spec fn spec_is_ascii_hexdigit(c: char) -> bool {
    spec_is_ascii_digit(c) || ('a' <= c <= 'f') || ('A' <= c <= 'F')
}

pub open spec fn spec_is_ascii_punctuation(c: char) -> bool {
    ('!' <= c <= '/') || (':' <= c <= '@') || ('[' <= c <= '`') || ('{' <= c <= '~')
}

pub open spec fn spec_is_ascii_graphic(c: char) -> bool {
    '!' <= c <= '~'
}

pub open spec fn spec_is_ascii(c: char) -> bool {
    (c as u32) < 0x80
}

/// `u8::is_ascii_whitespace`: space, tab, line feed, form feed, carriage return.
pub open spec fn spec_is_ascii_whitespace_byte(b: u8) -> bool {
    b == 0x20 || b == 0x09 || b == 0x0a || b == 0x0c || b == 0x0d
}

pub fn is_ascii_whitespace_byte(b: u8) -> (r: bool)
    ensures
        r == spec_is_ascii_whitespace_byte(b),
{
    b == 0x20 || b == 0x09 || b == 0x0a || b == 0x0c || b == 0x0d
}

/// A character predicate used by the scanning operations of the inputs.
#[derive(Debug, Clone, Copy, PartialEq, Eq)]
pub enum CharClass {
    /// `char::is_alphabetic`.
    Alpha,
    /// ASCII decimal digits.
    Digit,
    /// `char::is_alphanumeric`.
    AlphaNum,
    /// `char::is_alphanumeric` or `_`.
    Identifier,
    /// `char::is_whitespace`.
    Whitespace,
    /// Not `char::is_whitespace`.
    NonWhitespace,
    /// ASCII hexadecimal digits.
    HexDigit,
    /// Octal digits `0`..=`7`.
    Octal,
    /// `0` or `1`.
    Binary,
    /// Digits of radix 36 (ASCII digits and letters).
    Base36,
    /// ASCII alphanumerics, `+` and `/`.
    Base64,
    /// ASCII alphanumerics, `-` and `_`.
    Base64Url,
    /// `char::is_control`.
    Control,
    /// ASCII punctuation.
    Punctuation,
    /// ASCII graphic characters.
    Graph,
    /// `char::is_uppercase`.
    Upper,
    /// `char::is_lowercase`.
    Lower,
    /// ASCII characters.
    Ascii,
    /// Non-ASCII characters.
    NonAscii,
    /// Every character.
    Any,
}

impl CharClass {
    pub open spec fn spec_matches(self, c: char) -> bool {
        match self {
            CharClass::Alpha => char_is_alphabetic(c),
            CharClass::Digit => spec_is_ascii_digit(c),
            CharClass::AlphaNum => char_is_alphanumeric(c),
            CharClass::Identifier => char_is_alphanumeric(c) || c == '_',
            CharClass::Whitespace => char_is_whitespace(c),
            CharClass::NonWhitespace => !char_is_whitespace(c),
            CharClass::HexDigit => spec_is_ascii_hexdigit(c),
            CharClass::Octal => '0' <= c <= '7',
            CharClass::Binary => c == '0' || c == '1',
            CharClass::Base36 => spec_is_ascii_alphanumeric(c),
            CharClass::Base64 => spec_is_ascii_alphanumeric(c) || c == '+' || c == '/',
            CharClass::Base64Url => spec_is_ascii_alphanumeric(c) || c == '-' || c == '_',
            CharClass::Control => char_is_control(c),
            CharClass::Punctuation => spec_is_ascii_punctuation(c),
            CharClass::Graph => spec_is_ascii_graphic(c),
            CharClass::Upper => char_is_uppercase(c),
            CharClass::Lower => char_is_lowercase(c),
            CharClass::Ascii => spec_is_ascii(c),
            CharClass::NonAscii => !spec_is_ascii(c),
            CharClass::Any => true,
        }
    }

    /// Whether `c` belongs to this class.
    pub fn matches(self, c: char) -> (r: bool)
        ensures
            r == self.spec_matches(c),
    {
        let alnum = ('0' <= c && c <= '9') || ('a' <= c && c <= 'z') || ('A' <= c && c <= 'Z');
        match self {
            CharClass::Alpha => std_is_alphabetic(c),
            CharClass::Digit => '0' <= c && c <= '9',
            CharClass::AlphaNum => std_is_alphanumeric(c),
            CharClass::Identifier => std_is_alphanumeric(c) || c == '_',
            CharClass::Whitespace => is_white_space(c),
            CharClass::NonWhitespace => !is_white_space(c),
            CharClass::HexDigit => ('0' <= c && c <= '9') || ('a' <= c && c <= 'f') || ('A' <= c
                && c <= 'F'),
            CharClass::Octal => '0' <= c && c <= '7',
            CharClass::Binary => c == '0' || c == '1',
            CharClass::Base36 => alnum,
            CharClass::Base64 => alnum || c == '+' || c == '/',
            CharClass::Base64Url => alnum || c == '-' || c == '_',
            CharClass::Control => is_control_char(c),
            CharClass::Punctuation => ('!' <= c && c <= '/') || (':' <= c && c <= '@') || ('['
                <= c && c <= '`') || ('{' <= c && c <= '~'),
            CharClass::Graph => '!' <= c && c <= '~',
            CharClass::Upper => std_is_uppercase(c),
            CharClass::Lower => std_is_lowercase(c),
            CharClass::Ascii => (c as u32) < 0x80,
            CharClass::NonAscii => (c as u32) >= 0x80,
            CharClass::Any => true,
        }
    }
}

/// Whether `c` is a keyword boundary for identifiers: neither alphanumeric nor `_`.
pub fn is_ident_boundary(c: char) -> (r: bool)
    ensures
        r == !(char_is_alphanumeric(c) || c == '_'),
{
    !(std_is_alphanumeric(c) || c == '_')
}

// ---------------------------------------------------------------------------
// UTF-8 over byte slices
// ---------------------------------------------------------------------------

/// The first character of a byte sequence that starts with a valid scalar encoding.
pub open spec fn first_char(b: Seq<u8>) -> char {
    decode_first_scalar(b) as char
}

pub proof fn lemma_first_scalar_len(b: Seq<u8>)
    requires
        valid_first_scalar(b),
    ensures
        1 <= length_of_first_scalar(b) <= 4,
        length_of_first_scalar(b) <= b.len(),
        pop_first_scalar(b).len() == b.len() - length_of_first_scalar(b),
{
}

/// Decodes the scalar that starts at byte `pos` of `bytes[..end]`.
pub fn decode_at(bytes: &[u8], pos: usize, end: usize) -> (r: Option<(char, usize)>)
    requires
        pos < end <= bytes@.len(),
    ensures
        r is Some <==> valid_first_scalar(bytes@.subrange(pos as int, end as int)),
        r matches Some((c, w)) ==> {
            &&& c == first_char(bytes@.subrange(pos as int, end as int))
            &&& w == length_of_first_scalar(bytes@.subrange(pos as int, end as int))
            &&& 1 <= w <= end - pos
        },
{
    let ghost b = bytes@.subrange(pos as int, end as int);
    let b0 = bytes[pos];
    assert(b[0] == b0);
    if b0 <= 0x7f {
        let cp = (b0 & 0x7f) as u32;
        assert(cp == b0 as u32) by (bit_vector)
            requires
                b0 <= 0x7f,
                cp == (b0 & 0x7f) as u32,
        ;
        let c = std_char_from_u32(cp);
        match c {
            Some(c) => {
                assert(cp == decode_first_scalar(b));
                proof { char_u32_cast(c, cp); }
                assert(c == first_char(b));
                assert(1 == length_of_first_scalar(b));
                Some((c, 1))
            },
            None => None,
        }
    } else if 0xc0 <= b0 && b0 <= 0xdf {
        if end - pos < 2 {
            return None;
        }
        let b1 = bytes[pos + 1];
        assert(b[1] == b1);
        if !(0x80 <= b1 && b1 <= 0xbf) {
            return None;
        }
        let cp: u32 = (((b0 & 0x1f) as u32) << 6u32) | ((b1 & 0x3f) as u32);
        assert(cp <= 0x7ff) by (bit_vector)
            requires
                cp == (((b0 & 0x1f) as u32) << 6u32) | ((b1 & 0x3f) as u32),
        ;
        if cp < 0x80 {
            return None;
        }
        let c = std_char_from_u32(cp);
        match c {
            Some(c) => {
                assert(cp == decode_first_scalar(b));
                proof { char_u32_cast(c, cp); }
                assert(c == first_char(b));
                assert(2 == length_of_first_scalar(b));
                Some((c, 2))
            },
            None => None,
        }
    } else if 0xe0 <= b0 && b0 <= 0xef {
        if end - pos < 3 {
            return None;
        }
        let b1 = bytes[pos + 1];
        let b2 = bytes[pos + 2];
        assert(b[1] == b1 && b[2] == b2);
        if !(0x80 <= b1 && b1 <= 0xbf) || !(0x80 <= b2 && b2 <= 0xbf) {
            return None;
        }
        let cp: u32 = (((b0 & 0x0f) as u32) << 12u32) | (((b1 & 0x3f) as u32) << 6u32) | ((b2
            & 0x3f) as u32);
        assert(cp <= 0xffff) by (bit_vector)
            requires
                cp == (((b0 & 0x0f) as u32) << 12u32) | (((b1 & 0x3f) as u32) << 6u32) | ((b2
                    & 0x3f) as u32),
        ;
        if cp < 0x800 || (0xd800 <= cp && cp <= 0xdfff) {
            return None;
        }
        let c = std_char_from_u32(cp);
        match c {
            Some(c) => {
                assert(cp == decode_first_scalar(b));
                proof { char_u32_cast(c, cp); }
                assert(c == first_char(b));
                assert(3 == length_of_first_scalar(b));
                Some((c, 3))
            },
            None => None,
        }
    } else if 0xf0 <= b0 && b0 <= 0xf7 {
        if end - pos < 4 {
            return None;
        }
        let b1 = bytes[pos + 1];
        let b2 = bytes[pos + 2];
        let b3 = bytes[pos + 3];
        assert(b[1] == b1 && b[2] == b2 && b[3] == b3);
        if !(0x80 <= b1 && b1 <= 0xbf) || !(0x80 <= b2 && b2 <= 0xbf) || !(0x80 <= b3 && b3
            <= 0xbf) {
            return None;
        }
        let cp: u32 = (((b0 & 0x07) as u32) << 18u32) | (((b1 & 0x3f) as u32) << 12u32) | (((b2
            & 0x3f) as u32) << 6u32) | ((b3 & 0x3f) as u32);
        if cp < 0x10000 || cp > 0x10ffff {
            return None;
        }
        let c = std_char_from_u32(cp);
        match c {
            Some(c) => {
                assert(cp == decode_first_scalar(b));
                proof { char_u32_cast(c, cp); }
                assert(c == first_char(b));
                assert(4 == length_of_first_scalar(b));
                Some((c, 4))
            },
            None => None,
        }
    } else {
        None
    }
}

// ---------------------------------------------------------------------------
// Strings
// ---------------------------------------------------------------------------

/// `s`, borrowed: the result views as `s`.
pub(crate) fn cow_borrowed<'b>(s: &'b str) -> (r: Cow<'b, str>)
    ensures
        r@ == s@,
{
    Cow::Borrowed(s)
}

/// `s`, owned: the result views as `s`.
pub(crate) fn cow_owned(s: String) -> (r: Cow<'static, str>)
    ensures
        r@ == s@,
{
    Cow::Owned(s)
}

/// The text of `c`, borrowed.
pub(crate) fn cow_as_str<'b>(c: &'b Cow<'static, str>) -> (r: &'b str)
    ensures
        r@ == c@,
{
    match c {
        Cow::Borrowed(b) => b,
        Cow::Owned(o) => o.as_str(),
    }
}

/// Calls `std::str::from_utf8` on `bytes`: `Ok` exactly when the bytes are valid UTF-8, with
/// those bytes as its encoding. The error is rendered with its `Display` implementation,
/// whose text is named by `utf8_error_text`.
#[verifier::external_body]
pub(crate) fn std_str_from_utf8<'b>(bytes: &'b [u8]) -> (r: Result<&'b str, String>)
    ensures
        r is Ok <==> valid_utf8(bytes@),
        r matches Ok(s) ==> s.spec_bytes() == bytes@,
        r matches Err(t) ==> t@ == utf8_error_text(bytes@),
{
    match std::str::from_utf8(bytes) {
        Ok(s) => Ok(s),
        Err(e) => Err(format!("{e}")),
    }
}

/// The `Display` text of the `Utf8Error` that `std::str::from_utf8` reports for these bytes.
pub uninterp spec fn utf8_error_text(bytes: Seq<u8>) -> Seq<char>;

/// The text that `String::from_utf8_lossy` produces for these bytes.
pub uninterp spec fn lossy_text(bytes: Seq<u8>) -> Seq<char>;

/// Calls `String::from_utf8_lossy`: valid UTF-8 is decoded unchanged; other input is
/// decoded with replacement characters, which `lossy_text` names.
#[verifier::external_body]
pub(crate) fn std_from_utf8_lossy(bytes: &[u8]) -> (r: String)
    ensures
        r@ == lossy_text(bytes@),
        valid_utf8(bytes@) ==> r@ == decode_utf8(bytes@),
{
    String::from_utf8_lossy(bytes).into_owned()
}

pub proof fn lemma_chars_of_bytes(s: &str, bytes: Seq<u8>)
    requires
        s.spec_bytes() == bytes,
    ensures
        valid_utf8(bytes),
        s@ == decode_utf8(bytes),
{
    encode_utf8_valid_utf8(s@);
    encode_utf8_decode_utf8(s@);
}

/// Whether two strings hold the same characters.
pub fn str_eq(a: &str, b: &str) -> (r: bool)
    ensures
        r == (a@ == b@),
{
    let x = a.as_bytes();
    let y = b.as_bytes();
    proof {
        lemma_chars_of_bytes(a, x@);
        lemma_chars_of_bytes(b, y@);
    }
    if x.len() != y.len() {
        return false;
    }
    let mut i: usize = 0;
    while i < x.len()
        invariant
            x@.len() == y@.len(),
            x@ == a.spec_bytes(),
            y@ == b.spec_bytes(),
            0 <= i <= x@.len(),
            forall|j: int| 0 <= j < i ==> x@[j] == y@[j],
        decreases x@.len() - i,
    {
        if x[i] != y[i] {
            assert(x@[i as int] != y@[i as int]);
            assert(x@ != y@);
            return false;
        }
        i = i + 1;
    }
    assert(x@ =~= y@);
    true
}

pub open spec fn digit_char(d: nat) -> char {
    if d == 0 { '0' }
    else if d == 1 { '1' }
    else if d == 2 { '2' }
    else if d == 3 { '3' }
    else if d == 4 { '4' }
    else if d == 5 { '5' }
    else if d == 6 { '6' }
    else if d == 7 { '7' }
    else if d == 8 { '8' }
    else { '9' }
}

/// The decimal digits of `n`, most significant first.
pub open spec fn decimal_chars(n: nat) -> Seq<char>
    decreases n,
{
    if n < 10 {
        seq![digit_char(n)]
    } else {
        decimal_chars(n / 10) + seq![digit_char(n % 10)]
    }
}

fn digit_str(d: usize) -> (r: &'static str)
    requires
        d < 10,
    ensures
        r@ == seq![digit_char(d as nat)],
{
    proof {
        reveal_strlit("0");
        reveal_strlit("1");
        reveal_strlit("2");
        reveal_strlit("3");
        reveal_strlit("4");
        reveal_strlit("5");
        reveal_strlit("6");
        reveal_strlit("7");
        reveal_strlit("8");
        reveal_strlit("9");
    }
    if d == 0 {
        "0"
    } else if d == 1 {
        "1"
    } else if d == 2 {
        "2"
    } else if d == 3 {
        "3"
    } else if d == 4 {
        "4"
    } else if d == 5 {
        "5"
    } else if d == 6 {
        "6"
    } else if d == 7 {
        "7"
    } else if d == 8 {
        "8"
    } else {
        "9"
    }
}

/// Renders `n` in decimal, as `usize`'s `Display` does.
pub fn decimal_string(n: usize) -> (r: String)
    ensures
        r@ == decimal_chars(n as nat),
    decreases n,
{
    if n < 10 {
        digit_str(n).to_owned()
    } else {
        let mut s = decimal_string(n / 10);
        s.append(digit_str(n % 10));
        s
    }
}

/// Renders `n` in decimal, as `u128`'s `Display` does.
pub fn decimal_string_u128(n: u128) -> (r: String)
    ensures
        r@ == decimal_chars(n as nat),
    decreases n,
{
    if n < 10 {
        digit_str(n as usize).to_owned()
    } else {
        let mut s = decimal_string_u128(n / 10);
        s.append(digit_str((n % 10) as usize));
        s
    }
}

/// The decimal text of `v`, with a `-` before a negative value.
pub open spec fn int_chars(v: int) -> Seq<char> {
    if v < 0 {
        seq!['-'] + decimal_chars((-v) as nat)
    } else {
        decimal_chars(v as nat)
    }
}

/// Renders `v` in decimal, as the `Display` of the signed integer types does.
pub fn int_string(v: i128) -> (r: String)
    ensures
        r@ == int_chars(v as int),
{
    if v < 0 {
        let magnitude: u128 = ((-(v + 1)) as u128) + 1;
        let mut s = String::new();
        s.append("-");
        let digits = decimal_string_u128(magnitude);
        s.append(digits.as_str());
        proof {
            reveal_strlit("-");
            assert(s@ =~= int_chars(v as int));
        }
        s
    } else {
        decimal_string_u128(v as u128)
    }
}

/// `piece` repeated `n` times.
pub open spec fn repeat_chars(piece: Seq<char>, n: nat) -> Seq<char>
    decreases n,
{
    if n == 0 {
        seq![]
    } else {
        repeat_chars(piece, (n - 1) as nat) + piece
    }
}

/// `piece` repeated `n` times, as `str::repeat` does.
pub fn repeat_str(piece: &str, n: usize) -> (r: String)
    ensures
        r@ == repeat_chars(piece@, n as nat),
{
    let mut s = String::new();
    let mut i: usize = 0;
    while i < n
        invariant
            i <= n,
            s@ == repeat_chars(piece@, i as nat),
        decreases n - i,
    {
        s.append(piece);
        i = i + 1;
    }
    s
}

} // verus!
