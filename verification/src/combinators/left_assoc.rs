//! `LeftAssoc`: operands joined by operators, grouped to the left.
use vstd::prelude::*;

use crate::combinators::separated::Separated;
use crate::error::{ErrorModel, ParseError, ParseResult};
use crate::input::Input;
use crate::parse::offset::{ContextModel, ParseOffsetContext, ParseOffsetInput};
use crate::parse::Parse;

verus! {

/// A left-associative chain `r0 o1 r1 o2 r2 ...`, as `((r0 o1 r1) o2 r2) ...`.
#[derive(Debug, PartialEq, Eq, Hash)]
pub enum LeftAssoc<O, R> {
    Binary { left: Box<LeftAssoc<O, R>>, operator: O, right: R },
    Rhs(R),
}

/// The left-grouped tree of `operands` joined by `operators`, the i-th operator sitting
/// between operands i and i + 1.
pub open spec fn fold_left_assoc<O, R>(operands: Seq<R>, operators: Seq<O>) -> LeftAssoc<O, R>
    decreases operators.len(),
{
    if operators.len() == 0 || operands.len() <= 1 {
        LeftAssoc::Rhs(operands[0])
    } else {
        LeftAssoc::Binary {
            left: Box::new(fold_left_assoc(operands.drop_last(), operators.drop_last())),
            operator: operators.last(),
            right: operands.last(),
        }
    }
}

/// The tree of `operands` and `operators`; see [`fold_left_assoc`].
pub fn build_left_assoc<O, R>(operands: Vec<R>, operators: Vec<O>) -> (r: LeftAssoc<O, R>)
    requires
        operands@.len() == operators@.len() + 1,
    ensures
        r == fold_left_assoc(operands@, operators@),
{
    let _n_ops = operators.len();
    let ghost all_r = operands@;
    let ghost all_o = operators@;
    let mut operands = operands;
    let mut operators = operators;
    let first = operands.remove(0);
    let mut expr = LeftAssoc::Rhs(first);
    let mut k: usize = 0;
    assert(all_r.take(1) =~= seq![first]);
    while operators.len() > 0
        invariant
            all_r.len() == all_o.len() + 1,
            all_o.len() <= usize::MAX,
            k + operators@.len() == all_o.len(),
            operators@ == all_o.skip(k as int),
            operands@ == all_r.skip(k + 1),
            expr == fold_left_assoc(all_r.take(k + 1), all_o.take(k as int)),
        decreases operators@.len(),
    {
        let operator = operators.remove(0);
        let right = operands.remove(0);
        proof {
            let nr = all_r.take(k + 2);
            let no = all_o.take(k + 1);
            assert(nr.drop_last() =~= all_r.take(k + 1));
            assert(no.drop_last() =~= all_o.take(k as int));
            assert(nr.last() == right);
            assert(no.last() == operator);
        }
        expr = LeftAssoc::Binary { left: Box::new(expr), operator, right };
        k = k + 1;
        assert(operators@ =~= all_o.skip(k as int));
        assert(operands@ =~= all_r.skip(k + 1));
    }
    assert(all_r.take(k + 1) =~= all_r);
    assert(all_o.take(k as int) =~= all_o);
    expr
}

/// Whether `Separated<R, O>` gives from `input` a list that groups to `tree`, leaving `rest`.
pub open spec fn groups_to<'a, I: ParseOffsetInput<'a>, O: Parse<'a, I>, R: Parse<'a, I>>(
    input: I,
    tree: LeftAssoc<O, R>,
    rest: I,
) -> bool {
    exists|sep: Separated<R, O>|
        #[trigger] Separated::<R, O>::parse_rel(input, ContextModel::rooted(input.spec_anchor()), Ok((sep, rest))) && tree
            == fold_left_assoc(sep.items@, sep.separators@)
}

impl<'a, I: ParseOffsetInput<'a>, O: Parse<'a, I>, R: Parse<'a, I>> Parse<'a, I> for LeftAssoc<O, R> {
    /// Operands of `R` separated by operators of `O`, parsed as `Separated` with a fresh
    /// context, then grouped to the left.
    open spec fn parse_rel(input: I, ctx: ContextModel, out: Result<(LeftAssoc<O, R>, I), ErrorModel>) -> bool {
        match out {
            Err(e) => Separated::<R, O>::parse_rel(input, ContextModel::rooted(input.spec_anchor()), Err(e)) || (
            e == ErrorModel::Custom("Expected at least one operand for left-associative operator"@)
                && exists|sep: Separated<R, O>, rest: I|
                #[trigger] Separated::<R, O>::parse_rel(input, ContextModel::rooted(input.spec_anchor()), Ok((sep, rest)))
                    && sep.items@.len() != sep.separators@.len() + 1),
            Ok(p) => groups_to::<I, O, R>(input, p.0, p.1),
        }
    }

    fn parse_with_context(input: I, context: &mut ParseOffsetContext) -> (r: ParseResult<
        (LeftAssoc<O, R>, I),
    >) {
        let (seq, rest) = Separated::<R, O>::parse(input)?;
        let ghost s = seq;
        assert(Separated::<R, O>::parse_rel(input, ContextModel::rooted(input.spec_anchor()), Ok((s, rest))));
        let (operands, operators) = seq.into_parts();
        let n_items = operands.len();
        let n_ops = operators.len();
        if n_ops == usize::MAX || n_items != n_ops + 1 {
            let err = ParseError::custom("Expected at least one operand for left-associative operator");
            assert(s.items@.len() != s.separators@.len() + 1);
            return Err(err);
        }
        let expr = build_left_assoc(operands, operators);
        assert(groups_to::<I, O, R>(input, expr, rest));
        Ok((expr, rest))
    }
}

} // verus!
