//! The replay window of a streaming source: which positions of the stream are held, where in
//! the buffer each one sits, and how a read of the source moves the window.
use vstd::prelude::*;
use vstd::utf8::*;

use crate::error::{ErrorModel, ParseError, ParseResult};
use crate::text::{decimal_chars, decimal_string};

verus! {

/// The number of bytes in the UTF-8 encoding of a character whose first byte is `first`,
/// or zero when `first` cannot start one.
pub open spec fn spec_utf8_char_width(first: u8) -> usize {
    if is_leading_byte_width_1(first) {
        1
    } else if is_leading_byte_width_2(first) {
        2
    } else if is_leading_byte_width_3(first) {
        3
    } else if is_leading_byte_width_4(first) {
        4
    } else {
        0
    }
}

/// The number of bytes in the UTF-8 encoding of a character whose first byte is `first`,
/// or zero when `first` cannot start one.
pub fn utf8_char_width(first: u8) -> (r: usize)
    ensures
        r == spec_utf8_char_width(first),
{
    if first < 0x80 {
        assert(is_leading_byte_width_1(first)) by (bit_vector)
            requires
                first < 0x80,
        ;
        1
    } else if (first & 0xE0) == 0xC0 {
        assert(!is_leading_byte_width_1(first) && is_leading_byte_width_2(first)) by (bit_vector)
            requires
                first >= 0x80,
                (first & 0xE0) == 0xC0,
        ;
        2
    } else if (first & 0xF0) == 0xE0 {
        assert(!is_leading_byte_width_1(first) && !is_leading_byte_width_2(first)
            && is_leading_byte_width_3(first)) by (bit_vector)
            requires
                first >= 0x80,
                (first & 0xE0) != 0xC0,
                (first & 0xF0) == 0xE0,
        ;
        3
    } else if (first & 0xF8) == 0xF0 {
        assert(!is_leading_byte_width_1(first) && !is_leading_byte_width_2(first)
            && !is_leading_byte_width_3(first) && is_leading_byte_width_4(first)) by (bit_vector)
            requires
                first >= 0x80,
                (first & 0xE0) != 0xC0,
                (first & 0xF0) != 0xE0,
                (first & 0xF8) == 0xF0,
        ;
        4
    } else {
        assert(!is_leading_byte_width_1(first) && !is_leading_byte_width_2(first)
            && !is_leading_byte_width_3(first) && !is_leading_byte_width_4(first)) by (bit_vector)
            requires
                first >= 0x80,
                (first & 0xE0) != 0xC0,
                (first & 0xF0) != 0xE0,
                (first & 0xF8) != 0xF0,
        ;
        0
    }
}

/// Where the next read of the source goes: `first_len` bytes at `tail`, then `second_len`
/// bytes at the start of the buffer.
#[derive(Debug, Clone, Copy, PartialEq, Eq)]
pub struct ReadPlan {
    pub tail: usize,
    pub first_len: usize,
    pub second_len: usize,
}

/// What is known of a stream position: it is no longer held, it is held at a buffer index, it
/// needs a read of the source first, or it lies past the end of the source.
#[derive(Debug, Clone, Copy, PartialEq, Eq)]
pub enum Located {
    Replayed,
    Held(usize),
    NeedsRead,
    PastEnd,
}

/// The replay window of a stream over a buffer of `N` bytes: the positions
/// `start..start + len` are held, position `p` at index `p % N`; `eof` once the source has
/// reported its end.
#[derive(Debug, Clone, Copy, PartialEq, Eq)]
pub struct StreamWindow<const N: usize> {
    start: usize,
    len: usize,
    eof: bool,
}

/// The message of the error for a position that left the window.
pub open spec fn replay_message(n: usize) -> Seq<char> {
    "stream backtracking exceeded the "@ + decimal_chars(n as nat) + "-byte replay window"@
}

impl<const N: usize> StreamWindow<N> {
    #[verifier::type_invariant]
    closed spec fn inv(self) -> bool {
        &&& self.len <= N
        &&& self.start + self.len <= usize::MAX
    }

    /// The first position held.
    pub closed spec fn spec_start(self) -> usize {
        self.start
    }

    /// The number of positions held.
    pub closed spec fn spec_len(self) -> usize {
        self.len
    }

    /// Whether the source has reported its end.
    pub closed spec fn spec_eof(self) -> bool {
        self.eof
    }

    /// The position after the last one held.
    pub open spec fn spec_loaded_end(self) -> int {
        self.spec_start() + self.spec_len()
    }

    /// The number of bytes the next read may bring.
    pub open spec fn spec_writable(self) -> int {
        if self.spec_len() < N {
            N - self.spec_len()
        } else {
            N as int
        }
    }

    /// An empty window at the start of the stream.
    pub fn new() -> (r: Self)
        ensures
            r.spec_start() == 0,
            r.spec_len() == 0,
            !r.spec_eof(),
    {
        StreamWindow { start: 0, len: 0, eof: false }
    }

    /// The first position held.
    pub fn start(&self) -> (r: usize)
        ensures
            r == self.spec_start(),
    {
        self.start
    }

    /// The number of positions held.
    pub fn len(&self) -> (r: usize)
        ensures
            r == self.spec_len(),
            r <= N,
    {
        proof {
            use_type_invariant(self);
        }
        self.len
    }

    /// Whether the source has reported its end.
    pub fn eof(&self) -> (r: bool)
        ensures
            r == self.spec_eof(),
    {
        self.eof
    }

    /// The position after the last one held.
    pub fn loaded_end(&self) -> (r: usize)
        ensures
            r == self.spec_loaded_end(),
    {
        proof {
            use_type_invariant(self);
        }
        self.start + self.len
    }

    /// The error for a buffer of no bytes.
    fn zero_window_error() -> (r: ParseError)
        ensures
            r@ == ErrorModel::Custom("ReadInputStream requires a non-zero buffer size"@).into_fatal(),
    {
        ParseError::fatal("ReadInputStream requires a non-zero buffer size")
    }

    /// The error for a position that left the window.
    pub fn replay_error() -> (r: ParseError)
        ensures
            r@ == ErrorModel::Custom(replay_message(N)).into_fatal(),
    {
        let mut m = String::new();
        m.append("stream backtracking exceeded the ");
        let digits = decimal_string(N);
        m.append(digits.as_str());
        m.append("-byte replay window");
        proof {
            reveal_strlit("stream backtracking exceeded the ");
            reveal_strlit("-byte replay window");
            assert(m@ =~= replay_message(N));
        }
        ParseError::fatal_owned(m)
    }

    /// Where the next read goes: after the last byte held, wrapping at the end of the buffer,
    /// for as many bytes as are free (or the whole buffer, dropping the oldest bytes, when it
    /// is full). A buffer of no bytes cannot be read into.
    pub fn read_plan(&self) -> (r: ParseResult<ReadPlan>)
        ensures
            N == 0 <==> r is Err,
            r matches Err(e) ==> e@ == ErrorModel::Custom(
                "ReadInputStream requires a non-zero buffer size"@,
            ).into_fatal(),
            r matches Ok(p) ==> {
                &&& p.tail == self.spec_loaded_end() % (N as int)
                &&& p.first_len + p.second_len == self.spec_writable()
                &&& p.tail + p.first_len <= N
                &&& p.second_len <= p.tail
                &&& p.first_len == (if self.spec_writable() <= N - p.tail {
                    self.spec_writable()
                } else {
                    N - p.tail
                })
            },
    {
        proof {
            use_type_invariant(self);
        }
        if N == 0 {
            return Err(Self::zero_window_error());
        }
        let tail = (self.start + self.len) % N;
        let writable = if self.len < N {
            N - self.len
        } else {
            N
        };
        let room = N - tail;
        let first_len = if writable < room {
            writable
        } else {
            room
        };
        let second_len = writable - first_len;
        assert(second_len <= tail) by {
            if self.len < N {
                assert((self.start + self.len) % (N as int) >= 0);
            }
        }
        Ok(ReadPlan { tail, first_len, second_len })
    }

    /// Records a read of `n` bytes: none marks the end of the source; otherwise the window
    /// grows while the buffer has room, and then slides forward over the oldest bytes.
    pub fn record_read(&mut self, n: usize)
        requires
            n <= old(self).spec_writable(),
            old(self).spec_loaded_end() + n <= usize::MAX,
        ensures
            n == 0 ==> final(self).spec_eof() && final(self).spec_start() == old(self).spec_start()
                && final(self).spec_len() == old(self).spec_len(),
            n > 0 && old(self).spec_len() < N ==> final(self).spec_start() == old(self).spec_start()
                && final(self).spec_len() == old(self).spec_len() + n && final(self).spec_eof()
                == old(self).spec_eof(),
            n > 0 && old(self).spec_len() >= N ==> final(self).spec_start() == old(self).spec_start()
                + n && final(self).spec_len() == old(self).spec_len() && final(self).spec_eof()
                == old(self).spec_eof(),
            n > 0 ==> final(self).spec_loaded_end() == old(self).spec_loaded_end() + n,
            final(self).spec_start() >= old(self).spec_start(),
    {
        proof {
            use_type_invariant(&*self);
        }
        if n == 0 {
            self.eof = true;
        } else if self.len < N {
            self.len = self.len + n;
        } else {
            self.start = self.start + n;
        }
    }

    /// Where stream position `absolute` stands: before the window (no longer held), inside it
    /// (at index `absolute % N`), after it (a read is needed, or the source has ended).
    pub fn locate(&self, absolute: usize) -> (r: Located)
        ensures
            r == (if absolute < self.spec_start() {
                Located::Replayed
            } else if absolute >= self.spec_loaded_end() {
                if self.spec_eof() {
                    Located::PastEnd
                } else {
                    Located::NeedsRead
                }
            } else {
                Located::Held((absolute % N) as usize)
            }),
    {
        proof {
            use_type_invariant(self);
        }
        if absolute < self.start {
            Located::Replayed
        } else if absolute >= self.start + self.len {
            if self.eof {
                Located::PastEnd
            } else {
                Located::NeedsRead
            }
        } else {
            Located::Held(absolute % N)
        }
    }
}

} // verus!
