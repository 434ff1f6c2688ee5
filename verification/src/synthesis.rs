//! The synthesis of an injectivity formula as it runs: a value that holds
//! the answers so far and, handed the next one, says what to ask next.

use crate::ast::Ast;
use crate::context::Context;
use crate::error::Error;
use crate::protocol::{Call, Object, Request};
use crate::script::{
    answers, begin, cut, failed_at, forward, forward_len, held, lemma_failure,
    lemma_failure_push, lemma_forward_index, lemma_no_failure, optional, release_start, reply_at,
    step, tail_start, vars_known, wants_handle, StartView, StepView, SynthesisView,
};
use vstd::prelude::*;

verus! {

/// A synthesis that has asked how many arguments its declaration takes and
/// waits for the answer.
pub struct AxiomStart<'ctx> {
    ctx: &'ctx Context,
    func: usize,
    i_arg: usize,
}

impl<'ctx> View for AxiomStart<'ctx> {
    type V = StartView;

    closed spec fn view(&self) -> StartView {
        StartView { ctx: self.ctx@, func: self.func, i_arg: self.i_arg }
    }
}

impl<'ctx> AxiomStart<'ctx> {
    /// Opens a synthesis over the argument at `i_arg` of the declaration
    /// `func`: the synthesis, and the question it opens with.
    pub(crate) fn open(ctx: &'ctx Context, func: usize, i_arg: usize) -> (r: (
        AxiomStart<'ctx>,
        Request,
    ))
        ensures
            r.0@ == (StartView { ctx: ctx@, func, i_arg }),
            r.1@ == r.0@.question(),
    {
        let request = Request { ctx: ctx.raw(), call: Call::GetDomainSize { func } };
        (AxiomStart { ctx, func, i_arg }, request)
    }

    /// Takes the engine's answer to the opening question, the number of
    /// arguments the declaration takes, and says what comes next.
    ///
    /// Where the declaration has no argument at the position asked for, the
    /// synthesis is over at once, with [`Error::Arity`]: nothing has been
    /// made in the engine and nothing is. Otherwise the conversation that
    /// [`step`] lays down begins.
    pub fn resume(self, domain_size: u32) -> (r: AxiomStep<'ctx>)
        ensures
            r@ == self@.answered(domain_size),
            r matches AxiomStep::Call(next, _) ==> next@ == (SynthesisView {
                ctx: self@.ctx,
                func: self@.func,
                arity: domain_size,
                index: self@.i_arg as u32,
                replies: Seq::empty(),
            }),
    {
        AxiomSynthesis::begin(self.ctx, self.func, domain_size, self.i_arg)
    }
}

/// A synthesis under way: it has asked the engine something and waits for
/// the answer.
pub struct AxiomSynthesis<'ctx> {
    ctx: &'ctx Context,
    func: usize,
    arity: u32,
    index: u32,
    /// Every answer so far, in the order received.
    replies: Vec<usize>,
    phase: Phase,
}

/// What a synthesis is in the middle of.
enum Phase {
    /// The formula is being built.
    Building,
    /// Building is over, cut short by a null handle if `failed`; from
    /// position `start` on, `owed` is being released.
    Releasing { owed: Vec<Object>, start: usize, failed: bool },
}

/// What a synthesis does next.
pub enum AxiomStep<'ctx> {
    /// Perform the request, then resume the synthesis with the engine's answer.
    Call(AxiomSynthesis<'ctx>, Request),
    /// The synthesis is over.
    Done(Result<Ast<'ctx>, Error>),
}

impl<'ctx> View for AxiomSynthesis<'ctx> {
    type V = SynthesisView;

    closed spec fn view(&self) -> SynthesisView {
        SynthesisView {
            ctx: self.ctx@,
            func: self.func,
            arity: self.arity,
            index: self.index,
            replies: self.replies@,
        }
    }
}

impl<'ctx> View for AxiomStep<'ctx> {
    type V = StepView;

    open spec fn view(&self) -> StepView {
        match self {
            AxiomStep::Call(_, request) => StepView::Call(request@),
            AxiomStep::Done(Ok(formula)) => StepView::Done(Ok(formula@.raw)),
            AxiomStep::Done(Err(e)) => StepView::Done(Err(*e)),
        }
    }
}

/// Whether the call at position `pos` returns a handle.
///
/// The calls that build the formula lie in three stretches: four that set
/// up the inverse declaration, four for each bound variable, and nine for
/// the body, the trigger and the quantifier.
fn wants_handle_at(arity: u32, pos: usize) -> (b: bool)
    ensures
        b == wants_handle(arity, pos as int),
{
    if pos < 3 {
        true
    } else if pos == 3 {
        // The inverse declaration is retained.
        false
    } else if (pos - 4) / 4 < arity as usize {
        // The last of the four calls for a bound variable retains it.
        (pos - 4) % 4 != 3
    } else {
        // Each term of the last stretch is retained right after it is made;
        // the trigger is not, and the quantifier follows it at once.
        let off: usize = pos - 4 - 4 * (arity as usize);
        off == 0 || off == 2 || off == 4 || off == 6 || off == 7
    }
}

/// Every fourth answer from `first` on, `count` of them.
fn gather(replies: &Vec<usize>, first: usize, count: usize) -> (out: Vec<usize>)
    requires
        count == 0 || first + 4 * (count - 1) < replies@.len(),
    ensures
        out@ == Seq::new(count as nat, |k: int| replies@[first + 4 * k]),
{
    let len: usize = replies.len();
    let mut out: Vec<usize> = Vec::new();
    let mut k: usize = 0;
    while k < count
        invariant
            k <= count,
            len == replies@.len(),
            count == 0 || first + 4 * (count - 1) < len,
            out@ == Seq::new(k as nat, |m: int| replies@[first + 4 * m]),
        decreases count - k,
    {
        out.push(replies[first + 4 * k]);
        k = k + 1;
    }
    out
}

/// The call that builds the formula further, given the answers so far.
///
/// Every handle it passes on is an earlier answer: the range at 0, the sort
/// of the chosen argument at 1, the inverse at 2, and for the bound variable
/// of position `k` its sort at `4 + 4k`, its name at `5 + 4k` and the
/// variable itself at `6 + 4k`. With `t` for `4 + 4 * arity`, the
/// application is at `t`, the inverse application at `t + 2`, the equality
/// at `t + 4`, the trigger at `t + 6` and the quantifier at `t + 7`.
fn forward_call(func: usize, arity: u32, index: u32, replies: &Vec<usize>) -> (call: Call)
    requires
        index < arity,
        replies@.len() < forward_len(arity),
    ensures
        call@ == forward(func, arity, index, answers(arity, replies@))[replies@.len() as int],
{
    let pos: usize = replies.len();
    let n: usize = arity as usize;
    proof {
        lemma_forward_index(func, arity, index, answers(arity, replies@), pos as int);
    }
    if pos == 0 {
        Call::GetRange { func }
    } else if pos == 1 {
        Call::GetDomain { func, index }
    } else if pos == 2 {
        let mut domain: Vec<usize> = Vec::new();
        domain.push(replies[0]);
        Call::MkFreshFuncDecl { prefix: "inv".to_string(), domain, range: replies[1] }
    } else if pos == 3 {
        Call::IncRef(Object::Declaration(replies[2]))
    } else if (pos - 4) / 4 < n {
        // The bound variable of position `k`: its sort, its name, the
        // variable, and the call that retains it.
        let k: u32 = ((pos - 4) / 4) as u32;
        let r: usize = (pos - 4) % 4;
        if r == 0 {
            Call::GetDomain { func, index: k }
        } else if r == 1 {
            Call::MkIntSymbol { index: k }
        } else if r == 2 {
            Call::MkBound { index: k, sort: replies[pos - 2] }
        } else {
            Call::IncRef(Object::Term(replies[pos - 1]))
        }
    } else {
        let t: usize = 4 + 4 * n;
        let off: usize = pos - t;
        if off == 0 {
            Call::MkApp { func, args: gather(replies, 6, n) }
        } else if off == 1 {
            Call::IncRef(Object::Term(replies[t]))
        } else if off == 2 {
            let mut args: Vec<usize> = Vec::new();
            args.push(replies[t]);
            Call::MkApp { func: replies[2], args }
        } else if off == 3 {
            Call::IncRef(Object::Term(replies[t + 2]))
        } else if off == 4 {
            Call::MkEq { left: replies[t + 2], right: replies[6 + 4 * (index as usize)] }
        } else if off == 5 {
            Call::IncRef(Object::Term(replies[t + 4]))
        } else if off == 6 {
            let mut terms: Vec<usize> = Vec::new();
            terms.push(replies[t]);
            Call::MkPattern { terms }
        } else if off == 7 {
            let mut patterns: Vec<usize> = Vec::new();
            patterns.push(replies[t + 6]);
            Call::MkForall {
                weight: 0,
                patterns,
                sorts: gather(replies, 4, n),
                names: gather(replies, 5, n),
                body: replies[t + 4],
            }
        } else {
            Call::IncRef(Object::Term(replies[t + 7]))
        }
    }
}


/// The answer at position `p` among the first `cut`, or the null handle.
fn reply_before(replies: &Vec<usize>, cut: usize, p: u64) -> (h: usize)
    requires
        cut <= replies@.len(),
    ensures
        h == reply_at(replies@.take(cut as int), p as int),
{
    if p < cut as u64 {
        replies[p as usize]
    } else {
        0
    }
}

/// What the first `cut` answers leave to release, in release order.
fn collect_held(arity: u32, replies: &Vec<usize>, cut: usize) -> (out: Vec<Object>)
    requires
        cut <= replies@.len(),
    ensures
        out@ == held(answers(arity, replies@.take(cut as int))),
{
    let t: u64 = 4 + 4 * (arity as u64);
    let inverse: usize = reply_before(replies, cut, 2);
    let application: usize = reply_before(replies, cut, t);
    let inverse_application: usize = reply_before(replies, cut, t + 2);
    let equality: usize = reply_before(replies, cut, t + 4);
    let known: usize = if cut < 7 {
        0
    } else if (cut - 3) / 4 < arity as usize {
        (cut - 3) / 4
    } else {
        arity as usize
    };
    let ghost a = answers(arity, replies@.take(cut as int));
    let ghost vars = a.vars.map_values(|v: usize| Object::Term(v));
    let ghost first = optional(Object::Term(a.inverse_application)) + optional(
        Object::Term(a.application),
    );
    let mut out: Vec<Object> = Vec::new();
    if inverse_application != 0 {
        out.push(Object::Term(inverse_application));
    }
    if application != 0 {
        out.push(Object::Term(application));
    }
    assert(out@ == first);
    let mut k: usize = 0;
    while k < known
        invariant
            k <= known,
            known == vars_known(arity, cut as int),
            cut <= replies@.len(),
            vars == answers(arity, replies@.take(cut as int)).vars.map_values(
                |v: usize| Object::Term(v),
            ),
            out@ == first + vars.take(k as int),
        decreases known - k,
    {
        out.push(Object::Term(replies[6 + 4 * k]));
        assert(vars.take(k + 1) == vars.take(k as int).push(vars[k as int]));
        k = k + 1;
    }
    assert(vars.take(known as int) == vars);
    if inverse != 0 {
        out.push(Object::Declaration(inverse));
    }
    if equality != 0 {
        out.push(Object::Term(equality));
    }
    assert(out@ == first + vars + optional(Object::Declaration(a.inverse)) + optional(
        Object::Term(a.equality),
    ));
    assert(out@ == held(a)) by {
        reveal(held);
    }
    out
}

impl<'ctx> AxiomSynthesis<'ctx> {
    #[verifier::type_invariant]
    spec fn valid(&self) -> bool {
        &&& self.index < self.arity
        &&& match self.phase {
            Phase::Building => {
                &&& failed_at(self.arity, self.replies@) is None
                &&& self.replies@.len() < forward_len(self.arity)
            },
            Phase::Releasing { owed, start, failed } => {
                &&& failed == (failed_at(self.arity, self.replies@) is Some)
                &&& start == release_start(self.arity, self.replies@)
                &&& owed@ == held(
                    answers(self.arity, self.replies@.take(cut(self.arity, self.replies@))),
                )
                &&& start <= self.replies@.len() < start + owed@.len()
            },
        }
    }

    /// Goes on with a synthesis over the argument at `i_arg` of the
    /// declaration `func`, which takes `domain_size` arguments.
    fn begin(ctx: &'ctx Context, func: usize, domain_size: u32, i_arg: usize) -> (r:
        AxiomStep<'ctx>)
        ensures
            r@ == begin(ctx@, func, domain_size, i_arg),
            r matches AxiomStep::Call(next, _) ==> next@ == (SynthesisView {
                ctx: ctx@,
                func,
                arity: domain_size,
                index: i_arg as u32,
                replies: Seq::empty(),
            }),
    {
        if i_arg >= domain_size as usize {
            return AxiomStep::Done(Err(Error::Arity { arity: domain_size, index: i_arg }));
        }
        let index: u32 = i_arg as u32;
        let replies: Vec<usize> = Vec::new();
        let call = forward_call(func, domain_size, index, &replies);
        let request = Request { ctx: ctx.raw(), call };
        let phase = Phase::Building;
        AxiomStep::Call(
            AxiomSynthesis { ctx, func, arity: domain_size, index, replies, phase },
            request,
        )
    }

    /// Releases the next object that is owed, or ends the conversation.
    fn settle(
        ctx: &'ctx Context,
        func: usize,
        arity: u32,
        index: u32,
        replies: Vec<usize>,
        owed: Vec<Object>,
        start: usize,
        failed: bool,
    ) -> (r: AxiomStep<'ctx>)
        requires
            index < arity,
            failed == (failed_at(arity, replies@) is Some),
            start == release_start(arity, replies@),
            owed@ == held(answers(arity, replies@.take(cut(arity, replies@)))),
            start <= replies@.len() <= start + owed@.len(),
        ensures
            r@ == step(SynthesisView { ctx: ctx@, func, arity, index, replies: replies@ }),
            r matches AxiomStep::Call(next, _) ==> next@ == (SynthesisView {
                ctx: ctx@,
                func,
                arity,
                index,
                replies: replies@,
            }),
            r matches AxiomStep::Done(Ok(formula)) ==> formula@.ctx == ctx@,
    {
        let k: usize = replies.len() - start;
        if k < owed.len() {
            let request = Request { ctx: ctx.raw(), call: Call::DecRef(owed[k]) };
            let phase = Phase::Releasing { owed, start, failed };
            AxiomStep::Call(AxiomSynthesis { ctx, func, arity, index, replies, phase }, request)
        } else if failed {
            AxiomStep::Done(Err(Error::InvalidHandle))
        } else {
            proof {
                lemma_no_failure(arity, replies@, tail_start(arity) + 7);
            }
            AxiomStep::Done(Ok(Ast::retained(ctx, replies[start - 2])))
        }
    }

    /// Takes the engine's answer to the request that is out and says what
    /// comes next: [`step`] of the conversation with that answer added.
    ///
    /// For a call that returns nothing, any `reply` will do.
    pub fn resume(self, reply: usize) -> (r: AxiomStep<'ctx>)
        ensures
            r@ == step(self@.answered(reply)),
            r matches AxiomStep::Call(next, _) ==> next@ == self@.answered(reply),
            r matches AxiomStep::Done(Ok(formula)) ==> formula@.ctx == self@.ctx,
    {
        proof {
            use_type_invariant(&self);
            lemma_failure_push(self.arity, self.replies@, reply);
        }
        let ghost before = self.replies@;
        let AxiomSynthesis { ctx, func, arity, index, replies, phase } = self;
        let mut replies = replies;
        let pos: usize = replies.len();
        replies.push(reply);
        let len: usize = replies.len();
        match phase {
            Phase::Building => {
                if wants_handle_at(arity, pos) && reply == 0 {
                    // The engine refused: what the answers before this one
                    // left retained is released, and that is the end.
                    assert(replies@.take(pos as int) == before);
                    let owed = collect_held(arity, &replies, pos);
                    Self::settle(ctx, func, arity, index, replies, owed, len, true)
                } else if pos >= 12 && (pos - 12) % 4 == 0 && (pos - 12) / 4 == arity as usize {
                    // That was the last call of building, at `12 + 4 * arity`:
                    // the quantifier is retained.
                    assert(replies@.take(len as int) == replies@);
                    let owed = collect_held(arity, &replies, len);
                    Self::settle(ctx, func, arity, index, replies, owed, len, false)
                } else {
                    let call = forward_call(func, arity, index, &replies);
                    let request = Request { ctx: ctx.raw(), call };
                    let phase = Phase::Building;
                    AxiomStep::Call(
                        AxiomSynthesis { ctx, func, arity, index, replies, phase },
                        request,
                    )
                }
            },
            Phase::Releasing { owed, start, failed } => {
                proof {
                    if failed {
                        lemma_failure(arity, before);
                    }
                    assert(replies@.take(cut(arity, before)) == before.take(cut(arity, before)));
                }
                Self::settle(ctx, func, arity, index, replies, owed, start, failed)
            },
        }
    }
}

} // verus!
