//! Determinism: a parser whose relation gives at most one outcome for each input and context.
//! Literal tokens are deterministic, and the backtracking combinators keep determinism.
use vstd::prelude::*;

use crate::combinators::cut::Cut;
use crate::combinators::not::{accepts, Not};
use crate::combinators::or::Or;
use crate::combinators::peek::{gives, Peek};
use crate::error::ErrorModel;
use crate::parse::offset::{ContextModel, ParseOffsetInput};
use crate::parse::traits::{fails, fails_softly};
use crate::parse::Parse;
use crate::token::Token;

verus! {

/// Whether `T`'s relation gives at most one outcome for each input and context.
pub open spec fn deterministic<'a, I: ParseOffsetInput<'a>, T: Parse<'a, I>>() -> bool {
    forall|input: I, ctx: ContextModel, o1: Result<(T, I), ErrorModel>, o2: Result<(T, I), ErrorModel>|
        #![trigger T::parse_rel(input, ctx, o1), T::parse_rel(input, ctx, o2)]
        T::parse_rel(input, ctx, o1) && T::parse_rel(input, ctx, o2) ==> o1 == o2
}

/// A literal token gives one outcome: the token and the input after its text, or the error.
pub proof fn law_token_deterministic<'a, I: ParseOffsetInput<'a>, T: Token>()
    ensures
        deterministic::<I, T>(),
{
}

/// `Option<T>` is deterministic when `T` is.
pub proof fn law_option_deterministic<'a, I: ParseOffsetInput<'a>, T: Parse<'a, I>>()
    requires
        deterministic::<I, T>(),
    ensures
        deterministic::<I, Option<T>>(),
{
    assert forall|input: I, ctx: ContextModel, o1: Result<(Option<T>, I), ErrorModel>, o2: Result<
        (Option<T>, I),
        ErrorModel,
    >|
        #![trigger Option::<T>::parse_rel(input, ctx, o1), Option::<T>::parse_rel(input, ctx, o2)]
        Option::<T>::parse_rel(input, ctx, o1) && Option::<T>::parse_rel(input, ctx, o2) implies o1
        == o2 by {
        match (o1, o2) {
            (Ok((Some(v1), r1)), Ok((None, _))) => {
                let e = choose|e: ErrorModel| #[trigger] T::parse_rel(input, ctx, Err(e)) && !e.is_fatal();
                assert(T::parse_rel(input, ctx, Ok((v1, r1))));
            },
            (Ok((None, _)), Ok((Some(v2), r2))) => {
                let e = choose|e: ErrorModel| #[trigger] T::parse_rel(input, ctx, Err(e)) && !e.is_fatal();
                assert(T::parse_rel(input, ctx, Ok((v2, r2))));
            },
            (Ok((None, _)), Err(e2)) => {
                let e = choose|e: ErrorModel| #[trigger] T::parse_rel(input, ctx, Err(e)) && !e.is_fatal();
                assert(T::parse_rel(input, ctx, Err(e2)));
            },
            (Err(e1), Ok((None, _))) => {
                let e = choose|e: ErrorModel| #[trigger] T::parse_rel(input, ctx, Err(e)) && !e.is_fatal();
                assert(T::parse_rel(input, ctx, Err(e1)));
            },
            (Ok((Some(v1), r1)), Ok((Some(v2), r2))) => {
                assert(T::parse_rel(input, ctx, Ok((v1, r1))));
                assert(T::parse_rel(input, ctx, Ok((v2, r2))));
            },
            (Ok((Some(v1), r1)), Err(e2)) => {
                assert(T::parse_rel(input, ctx, Ok((v1, r1))));
                assert(T::parse_rel(input, ctx, Err(e2)));
            },
            (Err(e1), Ok((Some(v2), r2))) => {
                assert(T::parse_rel(input, ctx, Ok((v2, r2))));
                assert(T::parse_rel(input, ctx, Err(e1)));
            },
            (Err(e1), Err(e2)) => {
                assert(T::parse_rel(input, ctx, Err(e1)));
                assert(T::parse_rel(input, ctx, Err(e2)));
            },
            _ => {},
        }
    }
}

/// `Cut<T>` is deterministic when `T` is.
pub proof fn law_cut_deterministic<'a, I: ParseOffsetInput<'a>, T: Parse<'a, I>>()
    requires
        deterministic::<I, T>(),
    ensures
        deterministic::<I, Cut<T>>(),
{
    assert forall|input: I, ctx: ContextModel, o1: Result<(Cut<T>, I), ErrorModel>, o2: Result<
        (Cut<T>, I),
        ErrorModel,
    >|
        #![trigger Cut::<T>::parse_rel(input, ctx, o1), Cut::<T>::parse_rel(input, ctx, o2)]
        Cut::<T>::parse_rel(input, ctx, o1) && Cut::<T>::parse_rel(input, ctx, o2) implies o1 == o2 by {
        match (o1, o2) {
            (Ok(p1), Ok(p2)) => {
                assert(T::parse_rel(input, ctx, Ok((p1.0.0, p1.1))));
                assert(T::parse_rel(input, ctx, Ok((p2.0.0, p2.1))));
            },
            (Ok(p1), Err(e2)) => {
                let e0 = choose|e0: ErrorModel| #[trigger] T::parse_rel(input, ctx, Err(e0)) && e2 == (if e0.is_fatal() {
                    e0
                } else {
                    e0.into_fatal()
                });
                assert(T::parse_rel(input, ctx, Ok((p1.0.0, p1.1))));
            },
            (Err(e1), Ok(p2)) => {
                let e0 = choose|e0: ErrorModel| #[trigger] T::parse_rel(input, ctx, Err(e0)) && e1 == (if e0.is_fatal() {
                    e0
                } else {
                    e0.into_fatal()
                });
                assert(T::parse_rel(input, ctx, Ok((p2.0.0, p2.1))));
            },
            (Err(e1), Err(e2)) => {
                let a = choose|e0: ErrorModel| #[trigger] T::parse_rel(input, ctx, Err(e0)) && e1 == (if e0.is_fatal() {
                    e0
                } else {
                    e0.into_fatal()
                });
                let b = choose|e0: ErrorModel| #[trigger] T::parse_rel(input, ctx, Err(e0)) && e2 == (if e0.is_fatal() {
                    e0
                } else {
                    e0.into_fatal()
                });
                assert(T::parse_rel(input, ctx, Err(a)) && T::parse_rel(input, ctx, Err(b)));
            },
        }
    }
}

/// `Peek<P>` is deterministic when `P` is.
pub proof fn law_peek_deterministic<'a, I: ParseOffsetInput<'a>, P: Parse<'a, I>>()
    requires
        deterministic::<I, P>(),
    ensures
        deterministic::<I, Peek<P>>(),
{
    assert forall|input: I, ctx: ContextModel, o1: Result<(Peek<P>, I), ErrorModel>, o2: Result<
        (Peek<P>, I),
        ErrorModel,
    >|
        #![trigger Peek::<P>::parse_rel(input, ctx, o1), Peek::<P>::parse_rel(input, ctx, o2)]
        Peek::<P>::parse_rel(input, ctx, o1) && Peek::<P>::parse_rel(input, ctx, o2) implies o1 == o2 by {
        match (o1, o2) {
            (Ok(p1), Ok(p2)) => {
                let r1 = choose|r: I| #[trigger] P::parse_rel(input, ctx, Ok((p1.0.value, r)));
                let r2 = choose|r: I| #[trigger] P::parse_rel(input, ctx, Ok((p2.0.value, r)));
                assert(P::parse_rel(input, ctx, Ok((p1.0.value, r1))));
                assert(P::parse_rel(input, ctx, Ok((p2.0.value, r2))));
            },
            (Ok(p1), Err(e2)) => {
                let r1 = choose|r: I| #[trigger] P::parse_rel(input, ctx, Ok((p1.0.value, r)));
                assert(P::parse_rel(input, ctx, Ok((p1.0.value, r1))));
                assert(P::parse_rel(input, ctx, Err(e2)));
            },
            (Err(e1), Ok(p2)) => {
                let r2 = choose|r: I| #[trigger] P::parse_rel(input, ctx, Ok((p2.0.value, r)));
                assert(P::parse_rel(input, ctx, Ok((p2.0.value, r2))));
                assert(P::parse_rel(input, ctx, Err(e1)));
            },
            (Err(e1), Err(e2)) => {
                assert(P::parse_rel(input, ctx, Err(e1)));
                assert(P::parse_rel(input, ctx, Err(e2)));
            },
        }
    }
}

/// `Or<A, B>` is deterministic when `A` and `B` are.
pub proof fn law_or_deterministic<'a, I: ParseOffsetInput<'a>, A: Parse<'a, I>, B: Parse<'a, I>>()
    requires
        deterministic::<I, A>(),
        deterministic::<I, B>(),
    ensures
        deterministic::<I, Or<A, B>>(),
{
    assert forall|input: I, ctx: ContextModel, o1: Result<(Or<A, B>, I), ErrorModel>, o2: Result<
        (Or<A, B>, I),
        ErrorModel,
    >|
        #![trigger Or::<A, B>::parse_rel(input, ctx, o1), Or::<A, B>::parse_rel(input, ctx, o2)]
        Or::<A, B>::parse_rel(input, ctx, o1) && Or::<A, B>::parse_rel(input, ctx, o2) implies o1
        == o2 by {
        if fails_softly::<I, A>(input, ctx) {
            let ea = choose|e: ErrorModel| #[trigger] A::parse_rel(input, ctx, Err(e)) && !e.is_fatal();
            assert(A::parse_rel(input, ctx, Err(ea)));
            lemma_or_after_soft_failure::<I, A, B>(input, ctx, ea, o1, o2);
        } else {
            lemma_or_without_soft_failure::<I, A, B>(input, ctx, o1, o2);
        }
    }
}

/// When `A` fails softly with `ea`, `Or` gives what `B` gives, or the combined error.
proof fn lemma_or_after_soft_failure<'a, I: ParseOffsetInput<'a>, A: Parse<'a, I>, B: Parse<'a, I>>(
    input: I,
    ctx: ContextModel,
    ea: ErrorModel,
    o1: Result<(Or<A, B>, I), ErrorModel>,
    o2: Result<(Or<A, B>, I), ErrorModel>,
)
    requires
        deterministic::<I, A>(),
        deterministic::<I, B>(),
        A::parse_rel(input, ctx, Err(ea)),
        !ea.is_fatal(),
        Or::<A, B>::parse_rel(input, ctx, o1),
        Or::<A, B>::parse_rel(input, ctx, o2),
    ensures
        o1 == o2,
{
    match o1 {
        Ok((Or::Left(a), r)) => {
            assert(A::parse_rel(input, ctx, Ok((a, r))));
        },
        _ => {},
    }
    match o2 {
        Ok((Or::Left(a), r)) => {
            assert(A::parse_rel(input, ctx, Ok((a, r))));
        },
        _ => {},
    }
    match (o1, o2) {
        (Ok((Or::Right(b1), r1)), Ok((Or::Right(b2), r2))) => {
            assert(B::parse_rel(input, ctx, Ok((b1, r1))));
            assert(B::parse_rel(input, ctx, Ok((b2, r2))));
        },
        (Ok((Or::Right(b1), r1)), Err(e2)) => {
            assert(B::parse_rel(input, ctx, Ok((b1, r1))));
            if A::parse_rel(input, ctx, Err(e2)) && e2.is_fatal() {
                assert(A::parse_rel(input, ctx, Err(ea)));
            } else if B::parse_rel(input, ctx, Err(e2)) {
            } else {
                let (le, re) = choose|le: ErrorModel, re: ErrorModel|
                    #![trigger A::parse_rel(input, ctx, Err(le)), B::parse_rel(input, ctx, Err(re))]
                    A::parse_rel(input, ctx, Err(le)) && !le.is_fatal() && B::parse_rel(input, ctx, Err(re))
                        && !re.is_fatal() && e2 == crate::combinators::or::combined_error(le, re);
                assert(B::parse_rel(input, ctx, Err(re)));
            }
        },
        (Err(e1), Ok((Or::Right(b2), r2))) => {
            assert(B::parse_rel(input, ctx, Ok((b2, r2))));
            if A::parse_rel(input, ctx, Err(e1)) && e1.is_fatal() {
                assert(A::parse_rel(input, ctx, Err(ea)));
            } else if B::parse_rel(input, ctx, Err(e1)) {
            } else {
                let (le, re) = choose|le: ErrorModel, re: ErrorModel|
                    #![trigger A::parse_rel(input, ctx, Err(le)), B::parse_rel(input, ctx, Err(re))]
                    A::parse_rel(input, ctx, Err(le)) && !le.is_fatal() && B::parse_rel(input, ctx, Err(re))
                        && !re.is_fatal() && e1 == crate::combinators::or::combined_error(le, re);
                assert(B::parse_rel(input, ctx, Err(re)));
            }
        },
        (Err(e1), Err(e2)) => {
            lemma_or_error_unique::<I, A, B>(input, ctx, ea, e1, e2);
        },
        _ => {},
    }
}

/// Under a soft failure `ea` of `A`, the error of `Or` is unique.
proof fn lemma_or_error_unique<'a, I: ParseOffsetInput<'a>, A: Parse<'a, I>, B: Parse<'a, I>>(
    input: I,
    ctx: ContextModel,
    ea: ErrorModel,
    e1: ErrorModel,
    e2: ErrorModel,
)
    requires
        deterministic::<I, A>(),
        deterministic::<I, B>(),
        A::parse_rel(input, ctx, Err(ea)),
        !ea.is_fatal(),
        Or::<A, B>::parse_rel(input, ctx, Err(e1)),
        Or::<A, B>::parse_rel(input, ctx, Err(e2)),
    ensures
        e1 == e2,
{
    // Neither error can be a fatal error of `A`: `A`'s one error is `ea`, which is not fatal.
    if A::parse_rel(input, ctx, Err(e1)) {
        assert(A::parse_rel(input, ctx, Err(ea)));
    }
    if A::parse_rel(input, ctx, Err(e2)) {
        assert(A::parse_rel(input, ctx, Err(ea)));
    }
    let fatal1 = B::parse_rel(input, ctx, Err(e1)) && e1.is_fatal();
    let fatal2 = B::parse_rel(input, ctx, Err(e2)) && e2.is_fatal();
    if !fatal1 {
        let (l1, r1) = choose|le: ErrorModel, re: ErrorModel|
            #![trigger A::parse_rel(input, ctx, Err(le)), B::parse_rel(input, ctx, Err(re))]
            A::parse_rel(input, ctx, Err(le)) && !le.is_fatal() && B::parse_rel(input, ctx, Err(re))
                && !re.is_fatal() && e1 == crate::combinators::or::combined_error(le, re);
        assert(A::parse_rel(input, ctx, Err(l1)) && B::parse_rel(input, ctx, Err(r1)));
        if fatal2 {
            assert(B::parse_rel(input, ctx, Err(e2)));
        } else {
            let (l2, r2) = choose|le: ErrorModel, re: ErrorModel|
                #![trigger A::parse_rel(input, ctx, Err(le)), B::parse_rel(input, ctx, Err(re))]
                A::parse_rel(input, ctx, Err(le)) && !le.is_fatal() && B::parse_rel(input, ctx, Err(re))
                    && !re.is_fatal() && e2 == crate::combinators::or::combined_error(le, re);
            assert(A::parse_rel(input, ctx, Err(l2)) && B::parse_rel(input, ctx, Err(r2)));
        }
    } else if !fatal2 {
        let (l2, r2) = choose|le: ErrorModel, re: ErrorModel|
            #![trigger A::parse_rel(input, ctx, Err(le)), B::parse_rel(input, ctx, Err(re))]
            A::parse_rel(input, ctx, Err(le)) && !le.is_fatal() && B::parse_rel(input, ctx, Err(re))
                && !re.is_fatal() && e2 == crate::combinators::or::combined_error(le, re);
        assert(B::parse_rel(input, ctx, Err(r2)));
        assert(B::parse_rel(input, ctx, Err(e1)));
    } else {
        assert(B::parse_rel(input, ctx, Err(e1)));
        assert(B::parse_rel(input, ctx, Err(e2)));
    }
}

/// When `A` does not fail softly, `Or` gives what `A` gives.
proof fn lemma_or_without_soft_failure<'a, I: ParseOffsetInput<'a>, A: Parse<'a, I>, B: Parse<'a, I>>(
    input: I,
    ctx: ContextModel,
    o1: Result<(Or<A, B>, I), ErrorModel>,
    o2: Result<(Or<A, B>, I), ErrorModel>,
)
    requires
        deterministic::<I, A>(),
        !fails_softly::<I, A>(input, ctx),
        Or::<A, B>::parse_rel(input, ctx, o1),
        Or::<A, B>::parse_rel(input, ctx, o2),
    ensures
        o1 == o2,
{
    match (o1, o2) {
        (Ok((Or::Left(a1), r1)), Ok((Or::Left(a2), r2))) => {
            assert(A::parse_rel(input, ctx, Ok((a1, r1))));
            assert(A::parse_rel(input, ctx, Ok((a2, r2))));
        },
        (Ok((Or::Left(a1), r1)), Err(e2)) => {
            assert(A::parse_rel(input, ctx, Ok((a1, r1))));
            if !(A::parse_rel(input, ctx, Err(e2)) && e2.is_fatal()) {
                let (le, re) = choose|le: ErrorModel, re: ErrorModel|
                    #![trigger A::parse_rel(input, ctx, Err(le)), B::parse_rel(input, ctx, Err(re))]
                    A::parse_rel(input, ctx, Err(le)) && !le.is_fatal() && B::parse_rel(input, ctx, Err(re))
                        && !re.is_fatal() && e2 == crate::combinators::or::combined_error(le, re);
                assert(A::parse_rel(input, ctx, Err(le)));
            }
        },
        (Err(e1), Ok((Or::Left(a2), r2))) => {
            assert(A::parse_rel(input, ctx, Ok((a2, r2))));
            if !(A::parse_rel(input, ctx, Err(e1)) && e1.is_fatal()) {
                let (le, re) = choose|le: ErrorModel, re: ErrorModel|
                    #![trigger A::parse_rel(input, ctx, Err(le)), B::parse_rel(input, ctx, Err(re))]
                    A::parse_rel(input, ctx, Err(le)) && !le.is_fatal() && B::parse_rel(input, ctx, Err(re))
                        && !re.is_fatal() && e1 == crate::combinators::or::combined_error(le, re);
                assert(A::parse_rel(input, ctx, Err(le)));
            }
        },
        (Err(e1), Err(e2)) => {
            if !(A::parse_rel(input, ctx, Err(e1)) && e1.is_fatal()) {
                let (le, re) = choose|le: ErrorModel, re: ErrorModel|
                    #![trigger A::parse_rel(input, ctx, Err(le)), B::parse_rel(input, ctx, Err(re))]
                    A::parse_rel(input, ctx, Err(le)) && !le.is_fatal() && B::parse_rel(input, ctx, Err(re))
                        && !re.is_fatal() && e1 == crate::combinators::or::combined_error(le, re);
                assert(A::parse_rel(input, ctx, Err(le)));
            }
            if !(A::parse_rel(input, ctx, Err(e2)) && e2.is_fatal()) {
                let (le, re) = choose|le: ErrorModel, re: ErrorModel|
                    #![trigger A::parse_rel(input, ctx, Err(le)), B::parse_rel(input, ctx, Err(re))]
                    A::parse_rel(input, ctx, Err(le)) && !le.is_fatal() && B::parse_rel(input, ctx, Err(re))
                        && !re.is_fatal() && e2 == crate::combinators::or::combined_error(le, re);
                assert(A::parse_rel(input, ctx, Err(le)));
            }
            assert(A::parse_rel(input, ctx, Err(e1)));
            assert(A::parse_rel(input, ctx, Err(e2)));
        },
        (Ok((Or::Right(b), r)), _) => {
        },
        (_, Ok((Or::Right(b), r))) => {
        },
    }
}

/// `Not<S, P>` is deterministic when `S` and `P` are.
pub proof fn law_not_deterministic<'a, I: ParseOffsetInput<'a>, S: Parse<'a, I>, P: Parse<'a, I>>()
    requires
        deterministic::<I, S>(),
        deterministic::<I, P>(),
    ensures
        deterministic::<I, Not<S, P>>(),
{
    assert forall|input: I, ctx: ContextModel, o1: Result<(Not<S, P>, I), ErrorModel>, o2: Result<
        (Not<S, P>, I),
        ErrorModel,
    >|
        #![trigger Not::<S, P>::parse_rel(input, ctx, o1), Not::<S, P>::parse_rel(input, ctx, o2)]
        Not::<S, P>::parse_rel(input, ctx, o1) && Not::<S, P>::parse_rel(input, ctx, o2) implies o1
        == o2 by {
        if accepts::<I, P>(input, ctx) && fails::<I, P>(input, ctx) {
            let (v, r) = choose|v: P, r: I| #[trigger] P::parse_rel(input, ctx, Ok((v, r)));
            let e = choose|e: ErrorModel| #[trigger] P::parse_rel(input, ctx, Err(e));
            assert(P::parse_rel(input, ctx, Ok((v, r))) && P::parse_rel(input, ctx, Err(e)));
        }
        match (o1, o2) {
            (Ok(p1), Ok(p2)) => {
                assert(S::parse_rel(input, ctx, Ok((p1.0.value, p1.1))));
                assert(S::parse_rel(input, ctx, Ok((p2.0.value, p2.1))));
            },
            (Ok(p1), Err(e2)) => {
                assert(S::parse_rel(input, ctx, Ok((p1.0.value, p1.1))));
                if fails::<I, P>(input, ctx) {
                    assert(S::parse_rel(input, ctx, Err(e2)));
                }
            },
            (Err(e1), Ok(p2)) => {
                assert(S::parse_rel(input, ctx, Ok((p2.0.value, p2.1))));
                if fails::<I, P>(input, ctx) {
                    assert(S::parse_rel(input, ctx, Err(e1)));
                }
            },
            (Err(e1), Err(e2)) => {
                if fails::<I, P>(input, ctx) {
                    assert(S::parse_rel(input, ctx, Err(e1)));
                    assert(S::parse_rel(input, ctx, Err(e2)));
                }
            },
        }
    }
}

/// With a deterministic `T`: a fatal error of `T` is `Option<T>`'s error, a soft failure of
/// `T` gives `None` and the input untouched, and a value of `T` gives `Some` of it.
pub proof fn law_option_outcomes<'a, I: ParseOffsetInput<'a>, T: Parse<'a, I>>(
    input: I,
    ctx: ContextModel,
    t: Result<(T, I), ErrorModel>,
    out: Result<(Option<T>, I), ErrorModel>,
)
    requires
        deterministic::<I, T>(),
        T::parse_rel(input, ctx, t),
        Option::<T>::parse_rel(input, ctx, out),
    ensures
        match t {
            Err(e) => if e.is_fatal() {
                out == Err::<(Option<T>, I), ErrorModel>(e)
            } else {
                out == Ok::<(Option<T>, I), ErrorModel>((None, input))
            },
            Ok((v, rest)) => out == Ok::<(Option<T>, I), ErrorModel>((Some(v), rest)),
        },
{
    match out {
        Ok((Some(v), rest)) => {
            assert(T::parse_rel(input, ctx, Ok((v, rest))));
        },
        Ok((None, _)) => {
            let e = choose|e: ErrorModel| #[trigger] T::parse_rel(input, ctx, Err(e)) && !e.is_fatal();
            assert(T::parse_rel(input, ctx, Err(e)));
        },
        Err(e) => {
            assert(T::parse_rel(input, ctx, Err(e)));
        },
    }
}

/// With a deterministic `P`: `Peek<P>` gives `P`'s value with the input untouched, or `P`'s
/// error.
pub proof fn law_peek_outcomes<'a, I: ParseOffsetInput<'a>, P: Parse<'a, I>>(
    input: I,
    ctx: ContextModel,
    p: Result<(P, I), ErrorModel>,
    out: Result<(Peek<P>, I), ErrorModel>,
)
    requires
        deterministic::<I, P>(),
        P::parse_rel(input, ctx, p),
        Peek::<P>::parse_rel(input, ctx, out),
    ensures
        match p {
            Ok((v, _)) => out matches Ok((pk, rest)) && pk.value == v && rest == input,
            Err(e) => out == Err::<(Peek<P>, I), ErrorModel>(e),
        },
{
    match out {
        Ok((pk, _)) => {
            let r = choose|r: I| #[trigger] P::parse_rel(input, ctx, Ok((pk.value, r)));
            assert(P::parse_rel(input, ctx, Ok((pk.value, r))));
        },
        Err(e) => {
            assert(P::parse_rel(input, ctx, Err(e)));
        },
    }
}

/// With a deterministic `T`: `Cut<T>` gives `T`'s value, or `T`'s error made fatal (an
/// error that is already fatal unchanged).
pub proof fn law_cut_outcomes<'a, I: ParseOffsetInput<'a>, T: Parse<'a, I>>(
    input: I,
    ctx: ContextModel,
    t: Result<(T, I), ErrorModel>,
    out: Result<(Cut<T>, I), ErrorModel>,
)
    requires
        deterministic::<I, T>(),
        T::parse_rel(input, ctx, t),
        Cut::<T>::parse_rel(input, ctx, out),
    ensures
        match t {
            Ok((v, rest)) => out matches Ok((c, r)) && c.0 == v && r == rest,
            Err(e) => out == Err::<(Cut<T>, I), ErrorModel>(
                if e.is_fatal() {
                    e
                } else {
                    e.into_fatal()
                },
            ),
        },
{
    match out {
        Ok(p) => {
            assert(T::parse_rel(input, ctx, Ok((p.0.0, p.1))));

        },
        Err(e) => {
            let e0 = choose|e0: ErrorModel| #[trigger] T::parse_rel(input, ctx, Err(e0)) && e == (if e0.is_fatal() {
                e0
            } else {
                e0.into_fatal()
            });
            assert(T::parse_rel(input, ctx, Err(e0)));
        },
    }
}

/// With deterministic `A` and `B`: a value of `A` is `Or`'s left value and a fatal error of
/// `A` its error; after a soft failure `le` of `A`, a value of `B` is its right value, a fatal
/// error of `B` its error, and a soft failure `re` of `B` gives the combined error.
pub proof fn law_or_outcomes<'a, I: ParseOffsetInput<'a>, A: Parse<'a, I>, B: Parse<'a, I>>(
    input: I,
    ctx: ContextModel,
    a: Result<(A, I), ErrorModel>,
    b: Result<(B, I), ErrorModel>,
    out: Result<(Or<A, B>, I), ErrorModel>,
)
    requires
        deterministic::<I, A>(),
        deterministic::<I, B>(),
        A::parse_rel(input, ctx, a),
        B::parse_rel(input, ctx, b),
        Or::<A, B>::parse_rel(input, ctx, out),
    ensures
        match a {
            Ok((v, rest)) => out == Ok::<(Or<A, B>, I), ErrorModel>((Or::Left(v), rest)),
            Err(le) => if le.is_fatal() {
                out == Err::<(Or<A, B>, I), ErrorModel>(le)
            } else {
                match b {
                    Ok((v, rest)) => out == Ok::<(Or<A, B>, I), ErrorModel>((Or::Right(v), rest)),
                    Err(re) => if re.is_fatal() {
                        out == Err::<(Or<A, B>, I), ErrorModel>(re)
                    } else {
                        out == Err::<(Or<A, B>, I), ErrorModel>(
                            crate::combinators::or::combined_error(le, re),
                        )
                    },
                }
            },
        },
{
    law_or_deterministic::<I, A, B>();
    match a {
        Ok((v, rest)) => {
            assert(Or::<A, B>::parse_rel(input, ctx, Ok((Or::Left(v), rest))));
        },
        Err(le) => {
            if le.is_fatal() {
                assert(Or::<A, B>::parse_rel(input, ctx, Err(le)));
            } else {
                assert(fails_softly::<I, A>(input, ctx));
                match b {
                    Ok((v, rest)) => {
                        assert(Or::<A, B>::parse_rel(input, ctx, Ok((Or::Right(v), rest))));
                    },
                    Err(re) => {
                        if re.is_fatal() {
                            assert(Or::<A, B>::parse_rel(input, ctx, Err(re)));
                        } else {
                            assert(Or::<A, B>::parse_rel(
                                input,
                                ctx,
                                Err(crate::combinators::or::combined_error(le, re)),
                            ));
                        }
                    },
                }
            }
        },
    }
}

/// With deterministic `S` and `P`: when `P` succeeds, `Not` fails with the forbidden-pattern
/// error; when `P` fails, `Not` gives `S`'s value (same rest) or `S`'s error.
pub proof fn law_not_outcomes<'a, I: ParseOffsetInput<'a>, S: Parse<'a, I>, P: Parse<'a, I>>(
    input: I,
    ctx: ContextModel,
    p: Result<(P, I), ErrorModel>,
    sr: Result<(S, I), ErrorModel>,
    out: Result<(Not<S, P>, I), ErrorModel>,
)
    requires
        deterministic::<I, S>(),
        deterministic::<I, P>(),
        P::parse_rel(input, ctx, p),
        S::parse_rel(input, ctx, sr),
        Not::<S, P>::parse_rel(input, ctx, out),
    ensures
        p is Ok ==> out == Err::<(Not<S, P>, I), ErrorModel>(
            ErrorModel::Custom(crate::combinators::not::forbidden_message(input.spec_display())),
        ),
        p is Err ==> match sr {
            Ok((v, rest)) => out matches Ok((n, r)) && n.value == v && r == rest,
            Err(e) => out == Err::<(Not<S, P>, I), ErrorModel>(e),
        },
{
    match p {
        Ok((v, r)) => {
            assert(P::parse_rel(input, ctx, Ok((v, r))));
            assert(accepts::<I, P>(input, ctx));
            if fails::<I, P>(input, ctx) {
                let e = choose|e: ErrorModel| #[trigger] P::parse_rel(input, ctx, Err(e));
                assert(P::parse_rel(input, ctx, Err(e)));
            }
        },
        Err(e) => {
            assert(P::parse_rel(input, ctx, Err(e)));
            assert(fails::<I, P>(input, ctx));
            if accepts::<I, P>(input, ctx) {
                let (v, r) = choose|v: P, r: I| #[trigger] P::parse_rel(input, ctx, Ok((v, r)));
                assert(P::parse_rel(input, ctx, Ok((v, r))));
            }
            match out {
                Ok(q) => {
                    assert(S::parse_rel(input, ctx, Ok((q.0.value, q.1))));
                },
                Err(f) => {
                    assert(S::parse_rel(input, ctx, Err(f)));
                },
            }
        },
    }
}

} // verus!
