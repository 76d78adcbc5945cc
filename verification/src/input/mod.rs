//! Parser inputs: the `Input` abstraction and its implementations.
pub mod cursor;
pub mod str_input;
pub mod bytes_input;
pub mod read_input;
pub mod stream_window;
pub mod stream_step;
pub mod token_stream;

use vstd::prelude::*;

use crate::error::{ErrorModel, ParseResult};
use crate::text::{cow_borrowed, CharClass};
use std::borrow::Cow;

pub use str_input::StrInput;
pub use bytes_input::BytesInput;
pub use read_input::{ReadInput, ReadInputBuf};
pub use token_stream::TokenStream;


verus! {

/// The model of a fallible input operation: errors taken by their content.
pub open spec fn res_model<T>(r: ParseResult<T>) -> Result<T, ErrorModel> {
    match r {
        Ok(v) => Ok(v),
        Err(e) => Err(e@),
    }
}

/// The model of a scanning result: the matched text taken as its characters.
pub open spec fn text_res_model<'a, T>(r: ParseResult<(&'a str, T)>) -> Result<
    (Seq<char>, T),
    ErrorModel,
> {
    match r {
        Ok((s, rest)) => Ok((s@, rest)),
        Err(e) => Err(e@),
    }
}

/// Abstract parser input that supports consuming textual prefixes.
///
/// Each operation is stated by a spec function of the same name (`spec_...`), which each
/// implementation defines over its own content.
pub trait Input<'a>: Copy + Sized {
    /// The number of remaining units (bytes or tokens).
    spec fn spec_len(self) -> nat;

    /// The input after its leading whitespace.
    spec fn spec_trim_start(self) -> Self;

    /// Whether no input remains.
    spec fn spec_is_empty(self) -> bool;

    /// The remaining input as text for messages.
    spec fn spec_display(self) -> Seq<char>;

    /// The input after `prefix`, when it starts with it.
    spec fn spec_strip_prefix(self, prefix: Seq<char>) -> Result<Option<Self>, ErrorModel>;

    /// The input from the first occurrence of `needle` on.
    spec fn spec_find(self, needle: Seq<char>) -> Result<Option<Self>, ErrorModel>;

    /// The segment from `self` up to where `end` starts.
    spec fn spec_slice_to(self, end: Self) -> Result<Self, ErrorModel>;

    /// The first character and the input after it.
    spec fn spec_take_char(self) -> Result<Option<(char, Self)>, ErrorModel>;

    /// The longest prefix whose characters belong to `class`, and the input after it.
    spec fn spec_take_while(self, class: CharClass) -> Result<(Seq<char>, Self), ErrorModel>;

    /// The longest prefix none of whose characters belongs to `class`, and the input after it.
    spec fn spec_take_till(self, class: CharClass) -> Result<(Seq<char>, Self), ErrorModel>;

    /// Returns the number of remaining units in the input.
    fn input_len(self) -> (r: usize)
        ensures
            r == self.spec_len(),
    ;

    /// Trims leading whitespace and returns the remaining input.
    fn trim_start(self) -> (r: Self)
        ensures
            r == self.spec_trim_start(),
    ;

    /// Returns true when no input remains.
    fn is_empty(self) -> (r: bool)
        ensures
            r == self.spec_is_empty(),
    ;

    /// Returns the remaining input as a debug-friendly string.
    fn display(self) -> (r: String)
        ensures
            r@ == self.spec_display(),
    ;

    /// Attempts to strip a literal prefix and returns remaining input on success.
    fn strip_prefix(self, prefix: &str) -> (r: ParseResult<Option<Self>>)
        ensures
            res_model(r) == self.spec_strip_prefix(prefix@),
    ;

    /// Finds the next occurrence of `needle` and returns input starting at that match.
    fn find(self, needle: &str) -> (r: ParseResult<Option<Self>>)
        ensures
            res_model(r) == self.spec_find(needle@),
    ;

    /// Returns the input segment from `self` up to (but excluding) where `end` starts.
    fn slice_to(self, end: Self) -> (r: ParseResult<Self>)
        ensures
            res_model(r) == self.spec_slice_to(end),
    ;

    /// Takes the first character and returns it with the remaining input.
    fn take_char(self) -> (r: ParseResult<Option<(char, Self)>>)
        ensures
            res_model(r) == self.spec_take_char(),
    ;

    /// Consumes a maximal prefix of characters that belong to `class`.
    fn take_while(self, class: CharClass) -> (r: ParseResult<(&'a str, Self)>)
        ensures
            text_res_model(r) == self.spec_take_while(class),
    ;

    /// Consumes a prefix until a character of `class` is found.
    fn take_till(self, class: CharClass) -> (r: ParseResult<(&'a str, Self)>)
        ensures
            text_res_model(r) == self.spec_take_till(class),
    ;
}

/// Inputs whose matched text is borrowed from the source for the input's whole lifetime.
pub trait BorrowInput<'a>: Input<'a> {
    /// Consumes a maximal prefix of characters that belong to `class` and returns it
    /// borrowed.
    fn take_while_borrowed(self, class: CharClass) -> (r: ParseResult<(&'a str, Self)>)
        ensures
            text_res_model(r) == self.spec_take_while(class),
    {
        self.take_while(class)
    }

    /// Consumes a prefix until a character of `class` is found and returns it borrowed.
    fn take_till_borrowed(self, class: CharClass) -> (r: ParseResult<(&'a str, Self)>)
        ensures
            text_res_model(r) == self.spec_take_till(class),
    {
        self.take_till(class)
    }
}

impl<'a> BorrowInput<'a> for StrInput<'a> {

}

impl<'a> BorrowInput<'a> for ReadInput<'a> {

}

} // verus!

verus! {

/// A parser output type that can be made from text matched by an input.
pub trait FromInputStr<'a>: Sized {
    /// The text the value holds.
    spec fn spec_text(self) -> Seq<char>;

    /// Makes a value holding `value`.
    fn from_input_str(value: &'a str) -> (r: ParseResult<Self>)
        ensures
            r matches Ok(v) && v.spec_text() == value@,
    ;
}

impl<'a> FromInputStr<'a> for String {
    open spec fn spec_text(self) -> Seq<char> {
        self@
    }

    fn from_input_str(value: &'a str) -> (r: ParseResult<String>) {
        Ok(value.to_owned())
    }
}

impl<'a> FromInputStr<'a> for Cow<'a, str> {
    open spec fn spec_text(self) -> Seq<char> {
        self@
    }

    fn from_input_str(value: &'a str) -> (r: ParseResult<Cow<'a, str>>) {
        Ok(cow_borrowed(value))
    }
}

impl<'a> FromInputStr<'a> for &'a str {
    open spec fn spec_text(self) -> Seq<char> {
        self@
    }

    fn from_input_str(value: &'a str) -> (r: ParseResult<&'a str>) {
        Ok(value)
    }
}

} // verus!
