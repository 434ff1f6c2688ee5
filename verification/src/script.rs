//! The conversation that builds the formula making a declaration injective
//! in one of its arguments:
//!
//! ```text
//! forall x_0 .. x_{n-1} :  inv(f(x_0, .., x_{n-1})) = x_i
//! ```
//!
//! where `inv` is a fresh declaration from the range of `f` to the sort of
//! its `i`-th argument, and `f(x_0, .., x_{n-1})` is the trigger.
//!
//! The binding asks the engine one thing at a time and is handed back what
//! the engine answered: the handle it returned, or anything at all where
//! the call returns nothing. What is asked next depends on nothing but the
//! declaration, the argument position and the answers so far, so the whole
//! conversation is a function of those: [`step`].

use crate::error::Error;
use crate::protocol::{CallView, Object, RequestView};
use crate::refcount::release;
use vstd::prelude::*;

verus! {

/// A conversation so far: what it is about and what the engine has answered.
pub struct SynthesisView {
    pub ctx: usize,
    pub func: usize,
    pub arity: u32,
    pub index: u32,
    pub replies: Seq<usize>,
}

/// A synthesis that has yet to learn how many arguments its declaration
/// takes: what it is about.
pub struct StartView {
    pub ctx: usize,
    pub func: usize,
    pub i_arg: usize,
}

impl StartView {
    /// The question every synthesis opens with: how many arguments the
    /// declaration takes. The engine's answer is the only arity there is.
    pub open spec fn question(self) -> RequestView {
        RequestView { ctx: self.ctx, call: CallView::GetDomainSize { func: self.func } }
    }

    /// What follows once the engine has said that the declaration takes
    /// `domain_size` arguments.
    pub open spec fn answered(self, domain_size: u32) -> StepView {
        begin(self.ctx, self.func, domain_size, self.i_arg)
    }
}

/// What comes next in a conversation: one more call, or the end, with the
/// handle of the formula or the reason there is none.
pub enum StepView {
    Call(RequestView),
    Done(Result<usize, Error>),
}

/// The handles the engine returned, by what they stand for.
pub struct Answers {
    /// The range of the declaration: the one argument sort of the inverse.
    pub range: usize,
    /// The sort of the chosen argument: the range of the inverse.
    pub inverse_range: usize,
    /// The fresh inverse declaration.
    pub inverse: usize,
    /// The sort of each argument position.
    pub sorts: Seq<usize>,
    /// The name of each bound variable: the integer symbol of its position.
    pub names: Seq<usize>,
    /// The bound variables received so far, by position.
    pub vars: Seq<usize>,
    /// The declaration applied to all bound variables.
    pub application: usize,
    /// The inverse applied to that application.
    pub inverse_application: usize,
    /// The equality of the inverse application and the chosen variable.
    pub equality: usize,
    /// The trigger.
    pub pattern: usize,
    /// The quantified formula.
    pub quantifier: usize,
}

/// The position of the first call that follows the bound variables.
pub open spec fn tail_start(arity: u32) -> int {
    4 + 4 * arity
}

/// The number of calls that build the formula.
pub open spec fn forward_len(arity: u32) -> int {
    13 + 4 * arity
}

/// The answer at position `p`, or the null handle where there is none yet.
pub open spec fn reply_at(replies: Seq<usize>, p: int) -> usize {
    if 0 <= p < replies.len() {
        replies[p]
    } else {
        0
    }
}

/// How many bound variables `len` answers hold.
pub open spec fn vars_known(arity: u32, len: int) -> int {
    if len < 7 {
        0
    } else if (len - 3) / 4 < arity {
        (len - 3) / 4
    } else {
        arity as int
    }
}

/// The answers, read off by position.
pub open spec fn answers(arity: u32, replies: Seq<usize>) -> Answers {
    let t = tail_start(arity);
    Answers {
        range: reply_at(replies, 0),
        inverse_range: reply_at(replies, 1),
        inverse: reply_at(replies, 2),
        sorts: Seq::new(arity as nat, |k: int| reply_at(replies, 4 + 4 * k)),
        names: Seq::new(arity as nat, |k: int| reply_at(replies, 5 + 4 * k)),
        vars: Seq::new(
            vars_known(arity, replies.len() as int) as nat,
            |k: int| reply_at(replies, 6 + 4 * k),
        ),
        application: reply_at(replies, t),
        inverse_application: reply_at(replies, t + 2),
        equality: reply_at(replies, t + 4),
        pattern: reply_at(replies, t + 6),
        quantifier: reply_at(replies, t + 7),
    }
}

/// The calls that set up the inverse declaration and retain it.
pub open spec fn head(func: usize, index: u32, a: Answers) -> Seq<CallView> {
    seq![
        CallView::GetRange { func },
        CallView::GetDomain { func, index },
        CallView::MkFreshFuncDecl { prefix: "inv"@, domain: seq![a.range], range: a.inverse_range },
        CallView::IncRef(Object::Declaration(a.inverse)),
    ]
}

/// The calls that make the bound variable of position `k` and retain it.
pub open spec fn binder(func: usize, a: Answers, k: int) -> Seq<CallView> {
    seq![
        CallView::GetDomain { func, index: k as u32 },
        CallView::MkIntSymbol { index: k as u32 },
        CallView::MkBound { index: k as u32, sort: a.sorts[k] },
        CallView::IncRef(Object::Term(a.vars[k])),
    ]
}

/// The calls for the first `count` bound variables, in position order.
pub open spec fn binders(func: usize, a: Answers, count: nat) -> Seq<CallView>
    decreases count,
{
    if count == 0 {
        Seq::empty()
    } else {
        binders(func, a, (count - 1) as nat) + binder(func, a, count - 1)
    }
}

/// The calls that build the body, the trigger and the quantifier, each
/// term retained as soon as it exists.
pub open spec fn tail(func: usize, index: u32, a: Answers) -> Seq<CallView> {
    seq![
        CallView::MkApp { func, args: a.vars },
        CallView::IncRef(Object::Term(a.application)),
        CallView::MkApp { func: a.inverse, args: seq![a.application] },
        CallView::IncRef(Object::Term(a.inverse_application)),
        CallView::MkEq { left: a.inverse_application, right: a.vars[index as int] },
        CallView::IncRef(Object::Term(a.equality)),
        CallView::MkPattern { terms: seq![a.application] },
        CallView::MkForall {
            weight: 0,
            patterns: seq![a.pattern],
            sorts: a.sorts,
            names: a.names,
            body: a.equality,
        },
        CallView::IncRef(Object::Term(a.quantifier)),
    ]
}

/// Every call that builds the formula, in the order it is made.
#[verifier::opaque]
pub open spec fn forward(func: usize, arity: u32, index: u32, a: Answers) -> Seq<CallView> {
    head(func, index, a) + binders(func, a, arity as nat) + tail(func, index, a)
}

/// Whether the call at position `p` returns a handle (the others adjust a
/// count and return nothing).
pub open spec fn wants_handle(arity: u32, p: int) -> bool {
    let t = tail_start(arity);
    ||| 0 <= p < 3
    ||| 4 <= p < t && (p - 4) % 4 != 3
    ||| p == t
    ||| p == t + 2
    ||| p == t + 4
    ||| p == t + 6
    ||| p == t + 7
}

/// The position of the first call that the engine answered with the null
/// handle, if there is one.
pub open spec fn failed_at(arity: u32, replies: Seq<usize>) -> Option<int>
    decreases replies.len(),
{
    if replies.len() == 0 {
        None
    } else {
        let earlier = replies.drop_last();
        match failed_at(arity, earlier) {
            Some(j) => Some(j),
            None => if wants_handle(arity, earlier.len() as int) && replies.last() == 0 {
                Some(earlier.len() as int)
            } else {
                None
            },
        }
    }
}

/// `o` alone if its handle was received, nothing otherwise.
pub open spec fn optional(o: Object) -> Seq<Object> {
    if o.raw() != 0 {
        seq![o]
    } else {
        Seq::empty()
    }
}

/// The intermediate objects that have been retained, in the order in which
/// they are released.
#[verifier::opaque]
pub open spec fn held(a: Answers) -> Seq<Object> {
    optional(Object::Term(a.inverse_application)) + optional(Object::Term(a.application))
        + a.vars.map_values(|v: usize| Object::Term(v)) + optional(Object::Declaration(a.inverse))
        + optional(Object::Term(a.equality))
}

/// How many of the answers count toward what is held: all that came before
/// the null handle, or all there are to the formula.
pub open spec fn cut(arity: u32, replies: Seq<usize>) -> int {
    match failed_at(arity, replies) {
        Some(j) => j,
        None => forward_len(arity),
    }
}

/// The position at which releasing begins.
pub open spec fn release_start(arity: u32, replies: Seq<usize>) -> int {
    match failed_at(arity, replies) {
        Some(j) => j + 1,
        None => forward_len(arity),
    }
}

/// What follows the answers received so far.
///
/// While no answer was the null handle, the calls of [`forward`] are made in
/// order. Once the quantifier is retained, or as soon as a null handle comes
/// back, everything [`held`] is released, and the conversation ends: with
/// the quantifier, or with [`Error::InvalidHandle`].
pub open spec fn step(v: SynthesisView) -> StepView {
    let pos = v.replies.len() as int;
    let start = release_start(v.arity, v.replies);
    if pos < start {
        StepView::Call(
            RequestView {
                ctx: v.ctx,
                call: forward(v.func, v.arity, v.index, answers(v.arity, v.replies))[pos],
            },
        )
    } else {
        let owed = held(answers(v.arity, v.replies.take(cut(v.arity, v.replies))));
        if pos - start < owed.len() {
            StepView::Call(release(v.ctx, owed[pos - start]))
        } else if failed_at(v.arity, v.replies) is Some {
            StepView::Done(Err(Error::InvalidHandle))
        } else {
            StepView::Done(Ok(answers(v.arity, v.replies).quantifier))
        }
    }
}

/// What was asked after the first `k` answers of a conversation.
pub open spec fn asked(v: SynthesisView, k: int) -> StepView {
    step(v.after(k))
}

/// The step that makes `call` in `ctx`.
pub open spec fn made(ctx: usize, call: CallView) -> StepView {
    StepView::Call(RequestView { ctx, call })
}

/// How a synthesis over the argument at `i_arg` of a declaration of
/// `domain_size` arguments goes on once the arity is known: it is refused,
/// where there is no such argument, before anything is made in the engine.
pub open spec fn begin(ctx: usize, func: usize, domain_size: u32, i_arg: usize) -> StepView {
    if i_arg >= domain_size {
        StepView::Done(Err(Error::Arity { arity: domain_size, index: i_arg }))
    } else {
        step(
            SynthesisView {
                ctx,
                func,
                arity: domain_size,
                index: i_arg as u32,
                replies: Seq::empty(),
            },
        )
    }
}

impl SynthesisView {
    /// The conversation as it stood after its first `k` answers.
    pub open spec fn after(self, k: int) -> SynthesisView {
        SynthesisView { replies: self.replies.take(k), ..self }
    }

    /// The same conversation, one answer later.
    pub open spec fn answered(self, reply: usize) -> SynthesisView {
        SynthesisView { replies: self.replies.push(reply), ..self }
    }
}

/// The calls for the bound variables lie four to a position.
pub proof fn lemma_binders_index(func: usize, a: Answers, count: nat, k: int, r: int)
    requires
        0 <= k < count,
        0 <= r < 4,
    ensures
        binders(func, a, count).len() == 4 * count,
        binders(func, a, count)[4 * k + r] == binder(func, a, k)[r],
    decreases count,
{
    lemma_binders_len(func, a, count);
    lemma_binders_len(func, a, (count - 1) as nat);
    if k < count - 1 {
        lemma_binders_index(func, a, (count - 1) as nat, k, r);
    }
}

/// There are four calls to a bound variable.
pub proof fn lemma_binders_len(func: usize, a: Answers, count: nat)
    ensures
        binders(func, a, count).len() == 4 * count,
    decreases count,
{
    if count > 0 {
        lemma_binders_len(func, a, (count - 1) as nat);
    }
}

/// Where each call of [`forward`] stands.
pub proof fn lemma_forward_index(func: usize, arity: u32, index: u32, a: Answers, p: int)
    requires
        0 <= p < forward_len(arity),
    ensures
        forward(func, arity, index, a).len() == forward_len(arity),
        p < 4 ==> forward(func, arity, index, a)[p] == head(func, index, a)[p],
        4 <= p < tail_start(arity) ==> forward(func, arity, index, a)[p] == binder(
            func,
            a,
            (p - 4) / 4,
        )[(p - 4) % 4],
        tail_start(arity) <= p ==> forward(func, arity, index, a)[p] == tail(func, index, a)[p
            - tail_start(arity)],
{
    reveal(forward);
    lemma_binders_len(func, a, arity as nat);
    if 4 <= p < tail_start(arity) {
        lemma_binders_index(func, a, arity as nat, (p - 4) / 4, (p - 4) % 4);
    }
}

/// How one more answer moves the first failure: it is the first exactly
/// when none came before and it is a null handle where a handle was due.
pub proof fn lemma_failure_push(arity: u32, replies: Seq<usize>, reply: usize)
    ensures
        failed_at(arity, replies.push(reply)) == (match failed_at(arity, replies) {
            Some(j) => Some(j),
            None => if wants_handle(arity, replies.len() as int) && reply == 0 {
                Some(replies.len() as int)
            } else {
                None
            },
        }),
{
    assert(replies.push(reply).drop_last() == replies);
}

/// While nothing has failed, every handle received is a real one.
pub proof fn lemma_no_failure(arity: u32, replies: Seq<usize>, p: int)
    requires
        failed_at(arity, replies) is None,
        0 <= p < replies.len(),
        wants_handle(arity, p),
    ensures
        replies[p] != 0,
    decreases replies.len(),
{
    if p < replies.len() - 1 {
        lemma_no_failure(arity, replies.drop_last(), p);
    }
}

/// The first failure is a null handle where a handle was due, and stays the
/// first whatever is answered afterwards.
pub proof fn lemma_failure(arity: u32, replies: Seq<usize>)
    requires
        failed_at(arity, replies) is Some,
    ensures
        0 <= failed_at(arity, replies)->Some_0 < replies.len(),
        wants_handle(arity, failed_at(arity, replies)->Some_0),
        replies[failed_at(arity, replies)->Some_0] == 0,
        failed_at(arity, replies.take(failed_at(arity, replies)->Some_0)) is None,
    decreases replies.len(),
{
    let earlier = replies.drop_last();
    if failed_at(arity, earlier) is Some {
        lemma_failure(arity, earlier);
        let j = failed_at(arity, earlier)->Some_0;
        assert(earlier.take(j) == replies.take(j));
    } else {
        assert(replies.take(earlier.len() as int) == earlier);
    }
}


/// The calls that set up the inverse declaration stand first.
pub proof fn lemma_forward_head(func: usize, arity: u32, index: u32, a: Answers)
    ensures
        forward(func, arity, index, a)[0] == (CallView::GetRange { func }),
        forward(func, arity, index, a)[1] == (CallView::GetDomain { func, index }),
        forward(func, arity, index, a)[2] == (CallView::MkFreshFuncDecl {
            prefix: "inv"@,
            domain: seq![a.range],
            range: a.inverse_range,
        }),
        forward(func, arity, index, a)[3] == CallView::IncRef(Object::Declaration(a.inverse)),
{
    lemma_forward_index(func, arity, index, a, 0);
    lemma_forward_index(func, arity, index, a, 1);
    lemma_forward_index(func, arity, index, a, 2);
    lemma_forward_index(func, arity, index, a, 3);
}

/// The calls for the bound variable of position `k` stand four to a
/// position after them.
pub proof fn lemma_forward_binder(func: usize, arity: u32, index: u32, a: Answers, k: int)
    requires
        0 <= k < arity,
    ensures
        forward(func, arity, index, a)[4 + 4 * k] == (CallView::GetDomain {
            func,
            index: k as u32,
        }),
        forward(func, arity, index, a)[5 + 4 * k] == (CallView::MkIntSymbol { index: k as u32 }),
        forward(func, arity, index, a)[6 + 4 * k] == (CallView::MkBound {
            index: k as u32,
            sort: a.sorts[k],
        }),
        forward(func, arity, index, a)[7 + 4 * k] == CallView::IncRef(Object::Term(a.vars[k])),
{
    lemma_forward_index(func, arity, index, a, 4 + 4 * k);
    lemma_forward_index(func, arity, index, a, 5 + 4 * k);
    lemma_forward_index(func, arity, index, a, 6 + 4 * k);
    lemma_forward_index(func, arity, index, a, 7 + 4 * k);
}

/// The calls that build the body, the trigger and the quantifier stand last.
pub proof fn lemma_forward_tail(func: usize, arity: u32, index: u32, a: Answers)
    ensures
        ({
            let t = tail_start(arity);
            let script = forward(func, arity, index, a);
            &&& script[t] == (CallView::MkApp { func, args: a.vars })
            &&& script[t + 1] == CallView::IncRef(Object::Term(a.application))
            &&& script[t + 2] == (CallView::MkApp { func: a.inverse, args: seq![a.application] })
            &&& script[t + 3] == CallView::IncRef(Object::Term(a.inverse_application))
            &&& script[t + 4] == (CallView::MkEq {
                left: a.inverse_application,
                right: a.vars[index as int],
            })
            &&& script[t + 5] == CallView::IncRef(Object::Term(a.equality))
            &&& script[t + 6] == (CallView::MkPattern { terms: seq![a.application] })
            &&& script[t + 7] == (CallView::MkForall {
                weight: 0,
                patterns: seq![a.pattern],
                sorts: a.sorts,
                names: a.names,
                body: a.equality,
            })
            &&& script[t + 8] == CallView::IncRef(Object::Term(a.quantifier))
        }),
{
    let t = tail_start(arity);
    lemma_forward_index(func, arity, index, a, t);
    lemma_forward_index(func, arity, index, a, t + 1);
    lemma_forward_index(func, arity, index, a, t + 2);
    lemma_forward_index(func, arity, index, a, t + 3);
    lemma_forward_index(func, arity, index, a, t + 4);
    lemma_forward_index(func, arity, index, a, t + 5);
    lemma_forward_index(func, arity, index, a, t + 6);
    lemma_forward_index(func, arity, index, a, t + 7);
    lemma_forward_index(func, arity, index, a, t + 8);
}

/// Nothing fails in the beginning of a conversation in which nothing fails.
pub proof fn lemma_prefix_no_failure(arity: u32, replies: Seq<usize>, k: int)
    requires
        failed_at(arity, replies) is None,
        0 <= k <= replies.len(),
    ensures
        failed_at(arity, replies.take(k)) is None,
    decreases replies.len(),
{
    if k == replies.len() {
        assert(replies.take(k) == replies);
    } else {
        assert(replies.drop_last().take(k) == replies.take(k));
        lemma_prefix_no_failure(arity, replies.drop_last(), k);
    }
}

/// A call that builds the formula depends on the answers that came before
/// it and on no later one.
pub proof fn lemma_forward_stable(func: usize, arity: u32, index: u32, replies: Seq<usize>, p: int)
    requires
        index < arity,
        0 <= p < forward_len(arity),
        p <= replies.len(),
    ensures
        forward(func, arity, index, answers(arity, replies.take(p)))[p] == forward(
            func,
            arity,
            index,
            answers(arity, replies),
        )[p],
{
    let early = answers(arity, replies.take(p));
    let late = answers(arity, replies);
    let t = tail_start(arity);
    lemma_forward_index(func, arity, index, early, p);
    lemma_forward_index(func, arity, index, late, p);
    if p == t {
        assert(early.vars =~= late.vars);
    } else if p == t + 7 {
        assert(early.sorts =~= late.sorts);
        assert(early.names =~= late.names);
    }
}

} // verus!
