//! `Span`: a parse result with the input range it consumed.
use vstd::prelude::*;
use vstd::std_specs::cmp::PartialEqSpec;

use crate::error::{ErrorModel, ParseError, ParseResult, SourceSpan};
use crate::input::Input;
use crate::parse::offset::{
    current_parse_offset, spec_current_offset, spec_has_scope_for, ContextModel,
    ParseOffsetContext, ParseOffsetInput,
};
use crate::parse::Parse;

verus! {

/// Wraps a parser output with the input span it consumed.
#[derive(Debug, Clone, Copy, PartialEq, Eq, Hash, PartialOrd, Ord, Default)]
pub struct Span<P> {
    pub inner: P,
    pub span: SourceSpan,
}

impl<P> Span<P> {
    /// `inner` with `span`.
    pub fn new(inner: P, span: SourceSpan) -> (r: Self)
        ensures
            r.inner == inner,
            r.span == span,
    {
        Span { inner, span }
    }

    /// The wrapped value.
    pub fn into_inner(self) -> (r: P)
        ensures
            r == self.inner,
    {
        self.inner
    }

    /// A reference to the wrapped value.
    pub fn inner(&self) -> (r: &P)
        ensures
            *r == self.inner,
    {
        &self.inner
    }

    /// The value and its span.
    pub fn into_parts(self) -> (r: (P, SourceSpan))
        ensures
            r == (self.inner, self.span),
    {
        (self.inner, self.span)
    }

    /// Applies `map` to the wrapped value, keeping the span.
    pub fn map<T, F: FnOnce(P) -> T>(self, map: F) -> (r: Span<T>)
        requires
            call_requires(map, (self.inner,)),
        ensures
            call_ensures(map, (self.inner,), r.inner),
            r.span == self.span,
    {
        Span { inner: map(self.inner), span: self.span }
    }
}

/// The context in which `input` is parsed by a scoped parser: `ctx` itself when one of its
/// roots contains `input`, else `ctx` with a root anchored at `input`.
pub open spec fn scoped_ctx<'a, I: ParseOffsetInput<'a>>(ctx: ContextModel, input: I) -> ContextModel {
    if spec_has_scope_for(ctx.roots, input) {
        ctx
    } else {
        ContextModel { roots: ctx.roots.push(input.spec_anchor()), frames: ctx.frames }
    }
}

/// The number of units consumed from `input` to `rest`, zero when `rest` is longer.
pub open spec fn consumed<'a, I: ParseOffsetInput<'a>>(input: I, rest: I) -> usize {
    if rest.spec_len() <= input.spec_len() {
        (input.spec_len() - rest.spec_len()) as usize
    } else {
        0
    }
}

impl<P: PartialEq<P>> PartialEq<P> for Span<P> {
    fn eq(&self, other: &P) -> (r: bool) {
        self.inner == *other
    }
}

impl<P: PartialEq<P>> vstd::std_specs::cmp::PartialEqSpecImpl<P> for Span<P> {
    open spec fn obeys_eq_spec() -> bool {
        P::obeys_eq_spec()
    }

    open spec fn eq_spec(&self, other: &P) -> bool {
        self.inner.eq_spec(other)
    }
}

impl<P> std::ops::Deref for Span<P> {
    type Target = P;

    fn deref(&self) -> (r: &P)
        ensures
            *r == self.inner,
    {
        &self.inner
    }
}

impl<'a, I: ParseOffsetInput<'a>, P: Parse<'a, I>> Parse<'a, I> for Span<P> {
    /// What `P` gives in the scoped context, with the span from the start offset over what
    /// it consumed; an error gets a point span at the start offset when it has none.
    open spec fn parse_rel(input: I, ctx: ContextModel, out: Result<(Span<P>, I), ErrorModel>) -> bool {
        let c = scoped_ctx(ctx, input);
        let start = spec_current_offset(c, input);
        match out {
            Err(e) => exists|e0: ErrorModel|
                #[trigger] P::parse_rel(input, c, Err(e0)) && e == e0.with_span(
                    SourceSpan { start, end: start },
                ),
            Ok(p) => P::parse_rel(input, c, Ok((p.0.inner, p.1))) && p.0.span
                == SourceSpan::spec_from_start_len(start, consumed(input, p.1)),
        }
    }

    fn parse_with_context(input: I, context: &mut ParseOffsetContext) -> (r: ParseResult<
        (Span<P>, I),
    >) {
        let ghost ctx = context@;
        let pushed = !context.has_scope_for(input);
        if pushed {
            context.push_root(input);
        }
        assert(context@ == scoped_ctx(ctx, input));
        let start = current_parse_offset(context, input);
        let result = P::parse_with_context(input, context);
        if pushed {
            context.pop_root();
            assert(context@.roots =~= ctx.roots);
        }
        match result {
            Ok((parsed, rest)) => {
                let n = input.input_len().saturating_sub(rest.input_len());
                Ok((Span { inner: parsed, span: SourceSpan::from_start_len(start, n) }, rest))
            },
            Err(e) => {
                let ghost e0 = e@;
                assert(P::parse_rel(input, scoped_ctx(ctx, input), Err(e0)));
                Err(e.with_span(SourceSpan::point(start)))
            },
        }
    }
}

/// Parses `P` from `input` with a root anchored at `input`, and wraps the result with the
/// span it consumed.
pub fn parse_spanned<'a, I: ParseOffsetInput<'a>, P: Parse<'a, I>>(input: I) -> (r: ParseResult<
    (Span<P>, I),
>)
    ensures
        Span::<P>::parse_rel(
            input,
            ContextModel::rooted(input.spec_anchor()),
            crate::input::res_model(r),
        ),
{
    let mut context = ParseOffsetContext::new();
    context.push_root(input);
    assert(context@.roots =~= seq![input.spec_anchor()]);
    Span::<P>::parse_with_context(input, &mut context)
}

/// Parsing of any parser with the span it consumed.
pub trait SpanExt: Sized {
    /// Parses `Self` from `input` with a root anchored at `input`, wrapped with the span it
    /// consumed.
    fn parse_spanned<'a, I: ParseOffsetInput<'a>>(input: I) -> (r: ParseResult<(Span<Self>, I)>) where
        Self: Parse<'a, I>,

        ensures
            Span::<Self>::parse_rel(
                input,
                ContextModel::rooted(input.spec_anchor()),
                crate::input::res_model(r),
            ),
    {
        parse_spanned::<I, Self>(input)
    }
}

impl<T> SpanExt for T {

}

} // verus!
