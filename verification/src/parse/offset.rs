//! Offset tracking: anchors of input views and the context that parse calls share.
use vstd::prelude::*;

use crate::error::{ErrorModel, ParseError, ParseResult, SourceSpan};
use crate::input::{BytesInput, Input, ReadInput, StrInput, TokenStream};
use crate::text::{decimal_chars, decimal_string, str_eq};

verus! {

/// Anchor metadata used to compute absolute parser offsets: a start position and a length.
#[derive(Debug, Clone, Copy, PartialEq, Eq, Hash)]
pub struct ParseOffsetAnchor {
    start: usize,
    len: usize,
}

/// `a + b`, saturating at `usize::MAX`.
pub open spec fn sat_add(a: usize, b: usize) -> usize {
    if a + b > usize::MAX {
        usize::MAX
    } else {
        (a + b) as usize
    }
}

impl ParseOffsetAnchor {
    /// The anchored start position.
    pub closed spec fn spec_start(self) -> usize {
        self.start
    }

    /// The anchored length.
    pub closed spec fn spec_len(self) -> usize {
        self.len
    }

    /// The anchor for a view starting at `start` of `len` units.
    pub closed spec fn spec_new(start: usize, len: usize) -> Self {
        ParseOffsetAnchor { start, len }
    }

    /// An anchor starting at `start` and covering `len` units.
    pub fn new(start: usize, len: usize) -> (r: Self)
        ensures
            r == Self::spec_new(start, len),
            r.spec_start() == start,
            r.spec_len() == len,
    {
        ParseOffsetAnchor { start, len }
    }

    /// The anchored start position.
    pub fn start(self) -> (r: usize)
        ensures
            r == self.spec_start(),
    {
        self.start
    }

    /// The anchored length.
    pub fn len(self) -> (r: usize)
        ensures
            r == self.spec_len(),
    {
        self.len
    }

    /// Whether the anchor covers nothing.
    pub fn is_empty(self) -> (r: bool)
        ensures
            r == (self.spec_len() == 0),
    {
        self.len == 0
    }

    /// The end of the anchored range, saturating at `usize::MAX`.
    pub fn end(self) -> (r: usize)
        ensures
            r == sat_add(self.spec_start(), self.spec_len()),
    {
        self.start.saturating_add(self.len)
    }
}

/// The offset of a view `start..start + len` from `root`, when the view lies inside it.
pub open spec fn spec_offset_in(start: usize, len: usize, root: ParseOffsetAnchor) -> Option<usize> {
    if start < root.spec_start() || sat_add(start, len) > sat_add(root.spec_start(), root.spec_len()) {
        None
    } else {
        Some((start - root.spec_start()) as usize)
    }
}

/// The offset of a view `start..start + len` from `root`, when the view lies inside it.
pub fn offset_in(start: usize, len: usize, root: ParseOffsetAnchor) -> (r: Option<usize>)
    ensures
        r == spec_offset_in(start, len, root),
{
    let current_end = start.saturating_add(len);
    let root_end = root.start().saturating_add(root.len());
    if start < root.start() || current_end > root_end {
        return None;
    }
    Some(start - root.start())
}

/// Input support required for offset tracking through parse context.
///
/// Positions are those of the view within the text, bytes or tokens that the outermost
/// input was made from.
pub trait ParseOffsetInput<'a>: Input<'a> {
    /// The anchor describing this view.
    spec fn spec_anchor(self) -> ParseOffsetAnchor;

    /// The offset of this view from `root`, when the view lies inside it.
    spec fn spec_offset_from(self, root: ParseOffsetAnchor) -> Option<usize>;

    /// Returns an anchor describing the current input view.
    fn parse_offset_anchor(self) -> (r: ParseOffsetAnchor)
        ensures
            r == self.spec_anchor(),
    ;

    /// Returns the absolute offset from a root anchor when this input is inside it.
    fn parse_offset_from(self, root: ParseOffsetAnchor) -> (r: Option<usize>)
        ensures
            r == self.spec_offset_from(root),
    ;
}

impl<'a> ParseOffsetInput<'a> for StrInput<'a> {
    open spec fn spec_anchor(self) -> ParseOffsetAnchor {
        ParseOffsetAnchor::spec_new(self.offset(), self.spec_len() as usize)
    }

    open spec fn spec_offset_from(self, root: ParseOffsetAnchor) -> Option<usize> {
        spec_offset_in(self.offset(), self.spec_len() as usize, root)
    }

    fn parse_offset_anchor(self) -> (r: ParseOffsetAnchor) {
        ParseOffsetAnchor::new(self.position(), self.input_len())
    }

    fn parse_offset_from(self, root: ParseOffsetAnchor) -> (r: Option<usize>) {
        offset_in(self.position(), self.input_len(), root)
    }
}

impl<'a> ParseOffsetInput<'a> for BytesInput<'a> {
    open spec fn spec_anchor(self) -> ParseOffsetAnchor {
        ParseOffsetAnchor::spec_new(self.offset(), self.spec_len() as usize)
    }

    open spec fn spec_offset_from(self, root: ParseOffsetAnchor) -> Option<usize> {
        spec_offset_in(self.offset(), self.spec_len() as usize, root)
    }

    fn parse_offset_anchor(self) -> (r: ParseOffsetAnchor) {
        ParseOffsetAnchor::new(self.position(), self.input_len())
    }

    fn parse_offset_from(self, root: ParseOffsetAnchor) -> (r: Option<usize>) {
        offset_in(self.position(), self.input_len(), root)
    }
}

impl<'a> ParseOffsetInput<'a> for ReadInput<'a> {
    open spec fn spec_anchor(self) -> ParseOffsetAnchor {
        ParseOffsetAnchor::spec_new(self.offset(), self.spec_len() as usize)
    }

    open spec fn spec_offset_from(self, root: ParseOffsetAnchor) -> Option<usize> {
        spec_offset_in(self.offset(), self.spec_len() as usize, root)
    }

    fn parse_offset_anchor(self) -> (r: ParseOffsetAnchor) {
        ParseOffsetAnchor::new(self.position(), self.input_len())
    }

    fn parse_offset_from(self, root: ParseOffsetAnchor) -> (r: Option<usize>) {
        offset_in(self.position(), self.input_len(), root)
    }
}

impl<'a> ParseOffsetInput<'a> for TokenStream<'a> {
    open spec fn spec_anchor(self) -> ParseOffsetAnchor {
        ParseOffsetAnchor::spec_new(self.offset(), self.spec_len() as usize)
    }

    open spec fn spec_offset_from(self, root: ParseOffsetAnchor) -> Option<usize> {
        spec_offset_in(self.offset(), self.spec_len() as usize, root)
    }

    fn parse_offset_anchor(self) -> (r: ParseOffsetAnchor) {
        ParseOffsetAnchor::new(self.position(), self.input_len())
    }

    fn parse_offset_from(self, root: ParseOffsetAnchor) -> (r: Option<usize>) {
        offset_in(self.position(), self.input_len(), root)
    }
}

/// A frame of the recursion guard: a parser and the offset it entered at.
#[derive(Debug, Clone, Copy, PartialEq, Eq, Hash)]
struct RecursionFrame {
    parser_name: &'static str,
    offset: usize,
}

/// The content of a [`ParseOffsetContext`]: its root anchors and its recursion frames.
pub struct ContextModel {
    pub roots: Seq<ParseOffsetAnchor>,
    pub frames: Seq<(Seq<char>, usize)>,
}

impl ContextModel {
    /// The model of a fresh context.
    pub open spec fn empty() -> ContextModel {
        ContextModel { roots: seq![], frames: seq![] }
    }

    /// The model of a context with one root, `anchor`, and no recursion frames.
    pub open spec fn rooted(anchor: ParseOffsetAnchor) -> ContextModel {
        ContextModel { roots: seq![anchor], frames: seq![] }
    }
}

/// Parse-scoped offset context passed through parse calls.
///
/// It is owned by the parse entry point and passed to nested parsers; there is no global
/// state.
#[derive(Debug, Default)]
pub struct ParseOffsetContext {
    roots: Vec<ParseOffsetAnchor>,
    recursion_stack: Vec<RecursionFrame>,
}

impl View for ParseOffsetContext {
    type V = ContextModel;

    closed spec fn view(&self) -> ContextModel {
        ContextModel {
            roots: self.roots@,
            frames: self.recursion_stack@.map_values(
                |f: RecursionFrame| (f.parser_name@, f.offset),
            ),
        }
    }
}

/// Whether some root anchors a view that contains `input`.
pub open spec fn spec_has_scope_for<'a, I: ParseOffsetInput<'a>>(
    roots: Seq<ParseOffsetAnchor>,
    input: I,
) -> bool {
    exists|i: int| 0 <= i < roots.len() && (#[trigger] input.spec_offset_from(roots[i])) is Some
}

/// Whether root `a` is preferred to root `b`: shorter, or as long and starting later.
pub open spec fn preferred(a: ParseOffsetAnchor, b: ParseOffsetAnchor) -> bool {
    a.spec_len() < b.spec_len() || (a.spec_len() == b.spec_len() && a.spec_start() > b.spec_start())
}

/// The first most preferred root containing `input`, with the offset of `input` in it.
pub open spec fn best_root<'a, I: ParseOffsetInput<'a>>(
    roots: Seq<ParseOffsetAnchor>,
    input: I,
) -> Option<(usize, ParseOffsetAnchor)>
    decreases roots.len(),
{
    if roots.len() == 0 {
        None
    } else {
        let prev = best_root(roots.drop_last(), input);
        let root = roots.last();
        match input.spec_offset_from(root) {
            None => prev,
            Some(off) => match prev {
                None => Some((off, root)),
                Some((_, b)) => if preferred(root, b) {
                    Some((off, root))
                } else {
                    prev
                },
            },
        }
    }
}

/// The offset of `input` in its innermost enclosing root, or zero when no root encloses it.
pub open spec fn spec_current_offset<'a, I: ParseOffsetInput<'a>>(
    ctx: ContextModel,
    input: I,
) -> usize {
    match best_root(ctx.roots, input) {
        Some((off, _)) => off,
        None => 0,
    }
}

/// The message of the recursion guard's error.
pub open spec fn recursion_message(name: Seq<char>, offset: usize) -> Seq<char> {
    "recursive parser `"@ + name + "` made no progress at offset "@ + decimal_chars(offset as nat)
}

/// The error returned when `name` re-enters at `offset`.
pub open spec fn recursion_error(name: Seq<char>, offset: usize) -> ErrorModel {
    ErrorModel::Custom(recursion_message(name, offset)).with_span(
        SourceSpan { start: offset, end: offset },
    ).into_fatal()
}

impl ParseOffsetContext {
    /// A context with no roots and no recursion frames.
    pub fn new() -> (r: Self)
        ensures
            r@ == ContextModel::empty(),
    {
        let r = ParseOffsetContext { roots: Vec::new(), recursion_stack: Vec::new() };
        assert(r@.frames =~= Seq::<(Seq<char>, usize)>::empty());
        r
    }

    /// The number of root anchors currently open.
    pub fn root_count(&self) -> (r: usize)
        ensures
            r == self@.roots.len(),
    {
        self.roots.len()
    }

    /// Whether some root anchors a view that contains `input`.
    pub fn has_scope_for<'a, I: ParseOffsetInput<'a>>(&self, input: I) -> (r: bool)
        ensures
            r == spec_has_scope_for(self@.roots, input),
    {
        let mut i: usize = 0;
        while i < self.roots.len()
            invariant
                i <= self.roots@.len(),
                forall|j: int| 0 <= j < i ==> (#[trigger] input.spec_offset_from(self.roots@[j])) is None,
            decreases self.roots@.len() - i,
        {
            if input.parse_offset_from(self.roots[i]).is_some() {
                return true;
            }
            i = i + 1;
        }
        false
    }

    /// Opens a root anchored at `input`.
    pub fn push_root<'a, I: ParseOffsetInput<'a>>(&mut self, input: I)
        ensures
            final(self)@.roots == old(self)@.roots.push(input.spec_anchor()),
            final(self)@.frames == old(self)@.frames,
    {
        let anchor = input.parse_offset_anchor();
        self.roots.push(anchor);
    }

    /// Closes the innermost root.
    pub fn pop_root(&mut self)
        requires
            old(self)@.roots.len() > 0,
        ensures
            final(self)@.roots == old(self)@.roots.drop_last(),
            final(self)@.frames == old(self)@.frames,
    {
        let _ = self.roots.pop();
        assert(self.roots@ =~= old(self).roots@.drop_last());
    }

    /// Whether a frame for `name` at `offset` is open.
    fn has_frame(&self, name: &str, offset: usize) -> (r: bool)
        ensures
            r == self@.frames.contains((name@, offset)),
    {
        let mut i: usize = 0;
        while i < self.recursion_stack.len()
            invariant
                i <= self.recursion_stack@.len(),
                forall|j: int| 0 <= j < i ==> self@.frames[j] != (name@, offset),
            decreases self.recursion_stack@.len() - i,
        {
            let frame = self.recursion_stack[i];
            if frame.offset == offset && str_eq(frame.parser_name, name) {
                assert(self@.frames[i as int] == (name@, offset));
                return true;
            }
            i = i + 1;
        }
        false
    }

    fn push_frame(&mut self, name: &'static str, offset: usize)
        ensures
            final(self)@.roots == old(self)@.roots,
            final(self)@.frames == old(self)@.frames.push((name@, offset)),
    {
        self.recursion_stack.push(RecursionFrame { parser_name: name, offset });
        assert(self@.frames =~= old(self)@.frames.push((name@, offset)));
    }

    fn pop_frame(&mut self)
        requires
            old(self)@.frames.len() > 0,
        ensures
            final(self)@.roots == old(self)@.roots,
            final(self)@.frames == old(self)@.frames.drop_last(),
    {
        let _ = self.recursion_stack.pop();
        assert(self@.frames =~= old(self)@.frames.drop_last());
    }
}

/// The offset of `input` in its innermost enclosing root: among the roots that contain it,
/// the shortest, and of those the one starting last; zero when none contains it.
pub fn current_parse_offset<'a, I: ParseOffsetInput<'a>>(
    context: &ParseOffsetContext,
    input: I,
) -> (r: usize)
    ensures
        r == spec_current_offset(context@, input),
{
    let ghost roots = context@.roots;
    let mut best: Option<(usize, ParseOffsetAnchor)> = None;
    let mut i: usize = 0;
    while i < context.roots.len()
        invariant
            i <= roots.len(),
            roots == context@.roots,
            best == best_root(roots.take(i as int), input),
        decreases roots.len() - i,
    {
        let root = context.roots[i];
        assert(roots.take(i + 1).drop_last() =~= roots.take(i as int));
        assert(roots.take(i + 1).last() == root);
        match input.parse_offset_from(root) {
            None => {},
            Some(off) => {
                match best {
                    None => {
                        best = Some((off, root));
                    },
                    Some((_, b)) => {
                        if root.len() < b.len() || (root.len() == b.len() && root.start()
                            > b.start()) {
                            best = Some((off, root));
                        }
                    },
                }
            },
        }
        i = i + 1;
    }
    assert(roots.take(roots.len() as int) =~= roots);
    match best {
        Some((off, _)) => off,
        None => 0,
    }
}

/// `m` with its innermost root closed, when it has one.
pub open spec fn close_root(m: ContextModel) -> ContextModel {
    if m.roots.len() > 0 {
        ContextModel { roots: m.roots.drop_last(), frames: m.frames }
    } else {
        m
    }
}

/// `m` with its innermost recursion frame closed, when it has one.
pub open spec fn close_frame(m: ContextModel) -> ContextModel {
    if m.frames.len() > 0 {
        ContextModel { roots: m.roots, frames: m.frames.drop_last() }
    } else {
        m
    }
}

/// Runs `parse` with a root anchored at `input` open, then closes it.
pub fn with_parse_offset_scope<'a, I: ParseOffsetInput<'a>, R, F: FnOnce(
    &mut ParseOffsetContext,
) -> R>(context: &mut ParseOffsetContext, input: I, parse: F) -> (r: R)
    requires
        forall|c: &mut ParseOffsetContext| parse.requires((c,)),
    ensures
        exists|c: &mut ParseOffsetContext|
            {
                &&& #[trigger] parse.ensures((c,), r)
                &&& (*c)@ == ContextModel {
                    roots: old(context)@.roots.push(input.spec_anchor()),
                    frames: old(context)@.frames,
                }
                &&& final(context)@ == close_root((*final(c))@)
            },
{
    context.push_root(input);
    let result = parse(context);
    if context.root_count() > 0 {
        context.pop_root();
    }
    result
}

/// Runs `parse`, opening a root anchored at `input` first when no open root contains it.
pub fn with_parse_offset_scope_if_missing<'a, I: ParseOffsetInput<'a>, R, F: FnOnce(
    &mut ParseOffsetContext,
) -> R>(context: &mut ParseOffsetContext, input: I, parse: F) -> (r: R)
    requires
        forall|c: &mut ParseOffsetContext| parse.requires((c,)),
    ensures
        spec_has_scope_for(old(context)@.roots, input) ==> exists|c: &mut ParseOffsetContext|
            {
                &&& #[trigger] parse.ensures((c,), r)
                &&& (*c)@ == old(context)@
                &&& final(context)@ == (*final(c))@
            },
        !spec_has_scope_for(old(context)@.roots, input) ==> exists|c: &mut ParseOffsetContext|
            {
                &&& #[trigger] parse.ensures((c,), r)
                &&& (*c)@ == ContextModel {
                    roots: old(context)@.roots.push(input.spec_anchor()),
                    frames: old(context)@.frames,
                }
                &&& final(context)@ == close_root((*final(c))@)
            },
{
    if context.has_scope_for(input) {
        parse(context)
    } else {
        with_parse_offset_scope(context, input, parse)
    }
}

/// The recursion guard's error for `name` re-entering at `offset`.
fn recursion_guard_error(name: &str, offset: usize) -> (r: ParseError)
    ensures
        r@ == recursion_error(name@, offset),
{
    let mut message = String::new();
    message.append("recursive parser `");
    message.append(name);
    message.append("` made no progress at offset ");
    let digits = decimal_string(offset);
    message.append(digits.as_str());
    proof {
        reveal_strlit("recursive parser `");
        reveal_strlit("` made no progress at offset ");
        assert(message@ =~= recursion_message(name@, offset));
    }
    ParseError::custom_owned(message).with_span(SourceSpan::point(offset)).into_fatal()
}

/// Executes `parse` while guarding against same-offset recursion for `parser_name`.
///
/// If the same parser re-enters at the same absolute offset before its previous frame has
/// completed, parsing would otherwise recurse forever; the guard turns that into a fatal
/// error spanning the offset.
pub fn with_parse_recursion_guard<'a, I: ParseOffsetInput<'a>, R, F: FnOnce(
    &mut ParseOffsetContext,
) -> ParseResult<R>>(
    context: &mut ParseOffsetContext,
    input: I,
    parser_name: &'static str,
    parse: F,
) -> (r: ParseResult<R>)
    requires
        forall|c: &mut ParseOffsetContext| parse.requires((c,)),
    ensures
        old(context)@.frames.contains(
            (parser_name@, spec_current_offset(old(context)@, input)),
        ) ==> {
            &&& r matches Err(e) && e@ == recursion_error(
                parser_name@,
                spec_current_offset(old(context)@, input),
            )
            &&& final(context)@ == old(context)@
        },
        !old(context)@.frames.contains(
            (parser_name@, spec_current_offset(old(context)@, input)),
        ) ==> exists|c: &mut ParseOffsetContext|
            {
                &&& #[trigger] parse.ensures((c,), r)
                &&& (*c)@ == ContextModel {
                    roots: old(context)@.roots,
                    frames: old(context)@.frames.push(
                        (parser_name@, spec_current_offset(old(context)@, input)),
                    ),
                }
                &&& final(context)@ == close_frame((*final(c))@)
            },
{
    let offset = current_parse_offset(context, input);
    if context.has_frame(parser_name, offset) {
        return Err(recursion_guard_error(parser_name, offset));
    }
    context.push_frame(parser_name, offset);
    let result = parse(context);
    if context.recursion_stack.len() > 0 {
        context.pop_frame();
    }
    result
}

} // verus!
