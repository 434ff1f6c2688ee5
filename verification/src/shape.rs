//! What the formula that a synthesis ends with looks like, said of the
//! conversation that built it.

use crate::error::Error;
use crate::protocol::{CallView, RequestView};
use crate::script::{
    answers, asked, begin, forward, forward_len, lemma_forward_binder, lemma_forward_head,
    lemma_forward_index, lemma_forward_stable, lemma_forward_tail, lemma_no_failure,
    lemma_prefix_no_failure, made, step, tail_start, wants_handle, StartView, StepView,
    SynthesisView,
};
use vstd::prelude::*;

verus! {

/// A synthesis over an argument that the declaration does not have ends as
/// soon as the engine has said how many it has, with an arity error: the one
/// call made was a question, and nothing was made in the engine. Any other
/// goes on by asking for the range of the declaration.
pub proof fn law_arity_checked_first(start: StartView, domain_size: u32)
    ensures
        start.question().call == (CallView::GetDomainSize { func: start.func }),
        start.i_arg >= domain_size ==> start.answered(domain_size) == StepView::Done(
            Err(Error::Arity { arity: domain_size, index: start.i_arg }),
        ),
        start.i_arg < domain_size ==> start.answered(domain_size) == made(
            start.ctx,
            CallView::GetRange { func: start.func },
        ),
{
    let (ctx, func, i_arg) = (start.ctx, start.func, start.i_arg);
    if i_arg < domain_size {
        lemma_forward_index(
            func,
            domain_size,
            i_arg as u32,
            answers(domain_size, Seq::empty()),
            0,
        );
    }
}

/// A synthesis that ends with a formula has made every call of [`forward`],
/// in order, got a real handle from each call that returns one, and ends
/// with the handle the engine gave for the quantifier.
pub proof fn law_formula_follows_script(v: SynthesisView, formula: usize, p: int)
    requires
        v.index < v.arity,
        step(v) == StepView::Done(Ok::<usize, Error>(formula)),
        0 <= p < forward_len(v.arity),
    ensures
        v.replies.len() >= forward_len(v.arity),
        asked(v, p) == StepView::Call(
            RequestView {
                ctx: v.ctx,
                call: forward(v.func, v.arity, v.index, answers(v.arity, v.replies))[p],
            },
        ),
        wants_handle(v.arity, p) ==> v.replies[p] != 0,
        formula == v.replies[tail_start(v.arity) + 7],
{
    lemma_prefix_no_failure(v.arity, v.replies, p);
    lemma_forward_stable(v.func, v.arity, v.index, v.replies, p);
    if wants_handle(v.arity, p) {
        lemma_no_failure(v.arity, v.replies, p);
    }
}

/// The formula that a synthesis ends with is a universal quantifier over as
/// many bound variables as the declaration has arguments, each of the sort
/// of its position and named by that position; its body equates the bound
/// variable of the chosen argument with the fresh inverse declaration applied
/// to the declaration applied to all the bound variables; and that last
/// application is its one trigger.
///
/// Said of the conversation: each handle is the engine's answer to the call
/// that makes what it stands for.
pub proof fn law_formula_shape(v: SynthesisView, formula: usize)
    requires
        v.index < v.arity,
        step(v) == StepView::Done(Ok::<usize, Error>(formula)),
    ensures
        ({
            let a = answers(v.arity, v.replies);
            let t = tail_start(v.arity);
            &&& a.sorts.len() == v.arity
            &&& a.names.len() == v.arity
            &&& a.vars.len() == v.arity
            &&& asked(v, t + 7) == made(
                v.ctx,
                CallView::MkForall {
                    weight: 0,
                    patterns: seq![a.pattern],
                    sorts: a.sorts,
                    names: a.names,
                    body: a.equality,
                },
            )
            &&& v.replies[t + 7] == formula
            &&& formula != 0
            &&& asked(v, t + 6) == made(v.ctx, CallView::MkPattern { terms: seq![a.application] })
            &&& v.replies[t + 6] == a.pattern
            &&& asked(v, t + 4) == made(
                v.ctx,
                CallView::MkEq { left: a.inverse_application, right: a.vars[v.index as int] },
            )
            &&& v.replies[t + 4] == a.equality
            &&& asked(v, t + 2) == made(
                v.ctx,
                CallView::MkApp { func: a.inverse, args: seq![a.application] },
            )
            &&& v.replies[t + 2] == a.inverse_application
            &&& asked(v, t) == made(v.ctx, CallView::MkApp { func: v.func, args: a.vars })
            &&& v.replies[t] == a.application
            &&& asked(v, 2) == made(
                v.ctx,
                CallView::MkFreshFuncDecl {
                    prefix: "inv"@,
                    domain: seq![a.range],
                    range: a.inverse_range,
                },
            )
            &&& v.replies[2] == a.inverse
            &&& asked(v, 1) == made(v.ctx, CallView::GetDomain { func: v.func, index: v.index })
            &&& v.replies[1] == a.inverse_range
            &&& asked(v, 0) == made(v.ctx, CallView::GetRange { func: v.func })
            &&& v.replies[0] == a.range
            &&& forall|k: int|
                0 <= k < v.arity ==> {
                    &&& #[trigger] asked(v, 4 + 4 * k) == made(
                        v.ctx,
                        CallView::GetDomain { func: v.func, index: k as u32 },
                    )
                    &&& v.replies[4 + 4 * k] == a.sorts[k]
                    &&& asked(v, 5 + 4 * k) == made(
                        v.ctx,
                        CallView::MkIntSymbol { index: k as u32 },
                    )
                    &&& v.replies[5 + 4 * k] == a.names[k]
                    &&& asked(v, 6 + 4 * k) == made(
                        v.ctx,
                        CallView::MkBound { index: k as u32, sort: a.sorts[k] },
                    )
                    &&& v.replies[6 + 4 * k] == a.vars[k]
                }
        }),
{
    let a = answers(v.arity, v.replies);
    let t = tail_start(v.arity);
    lemma_forward_head(v.func, v.arity, v.index, a);
    lemma_forward_tail(v.func, v.arity, v.index, a);
    law_formula_follows_script(v, formula, t + 7);
    law_formula_follows_script(v, formula, t + 6);
    law_formula_follows_script(v, formula, t + 4);
    law_formula_follows_script(v, formula, t + 2);
    law_formula_follows_script(v, formula, t);
    law_formula_follows_script(v, formula, 2);
    law_formula_follows_script(v, formula, 1);
    law_formula_follows_script(v, formula, 0);
    assert forall|k: int| 0 <= k < v.arity implies {
        &&& #[trigger] asked(v, 4 + 4 * k) == made(
            v.ctx,
            CallView::GetDomain { func: v.func, index: k as u32 },
        )
        &&& v.replies[4 + 4 * k] == a.sorts[k]
        &&& asked(v, 5 + 4 * k) == made(v.ctx, CallView::MkIntSymbol { index: k as u32 })
        &&& v.replies[5 + 4 * k] == a.names[k]
        &&& asked(v, 6 + 4 * k) == made(
            v.ctx,
            CallView::MkBound { index: k as u32, sort: a.sorts[k] },
        )
        &&& v.replies[6 + 4 * k] == a.vars[k]
    } by {
        lemma_forward_binder(v.func, v.arity, v.index, a, k);
        law_formula_follows_script(v, formula, 4 + 4 * k);
        law_formula_follows_script(v, formula, 5 + 4 * k);
        law_formula_follows_script(v, formula, 6 + 4 * k);
    }
}

} // verus!
