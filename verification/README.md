# typeward

A parser combinator library whose parsers are types, composed through generics, with
every parser's behaviour stated and proved in Verus.

Each `Parse` implementation states its meaning as a relation, `parse_rel(input, ctx, out)`:
parsing `input` under the offset context `ctx` gives `out`, the value and the rest of the
input or the error. Combinators state theirs in terms of their parts, so the contract of a
composed parser follows the type it is built from. Parsing never changes the context it is
given.

## Layout

- `src/text.rs` — character classes and text helpers.
- `src/error.rs` — `ParseError`, its model `ErrorModel`, `SourceSpan`, rendering.
- `src/input/` — the `Input` abstraction and its implementations over `&str`
  (`StrInput`), bytes (`BytesInput`, `ReadInput`/`ReadInputBuf`) and token slices
  (`TokenStream`); the replay window of streaming sources (`stream_window`) and the
  decisions of a streaming input over the bytes the window holds (`stream_step`).
- `src/parse/` — the `Parse` trait, offset tracking (`ParseOffsetContext`), and the
  whole-input entry points (`parse_complete` and friends).
- `src/token.rs`, `src/literals.rs` — literal tokens.
- `src/primitives.rs` — strings, character runs, integers, `bool`, `char`.
- `src/combinators/`, `src/collections/` — the combinators.
- `src/laws.rs` — properties of the library as a whole; `src/laws_determinism.rs` —
  determinism of tokens and of the backtracking combinators.
- `app/` — reading from `std::io` sources (including the streaming input, which performs
  the reads that the library's steps ask for), and `Display` for errors.

## Scope

- Floating-point numbers are not parsed: Verus does not reason about them.
- There is no `#[derive(Parse)]`; implement `Parse` by hand.
- Scanning takes a `CharClass` (a fixed set of character classes) rather than an arbitrary
  predicate.
- Repetition also fills `VecDeque`, `HashSet` and `BTreeSet`. `collections::heap::BinaryHeap`
  is a priority queue kept as a vector ordered by an integer key.
- A streaming source (`app/`) offers the input operations through the library's step
  functions; parsers run over `ReadInputBuf`, which holds what a source gave.
