//! What a whole synthesis does to the engine's reference counts: when it is
//! over, the formula it ends with is retained once and nothing else has
//! changed; where it ends without one, nothing has changed at all.

use crate::protocol::{CallView, Object, RequestView};
use crate::refcount::{lemma_occurrences_concat, net, occurrences, release, retain};
use crate::script::{
    answers, asked, cut, failed_at, forward, forward_len, held, lemma_failure,
    lemma_forward_binder, lemma_forward_head, lemma_forward_stable, lemma_forward_tail,
    lemma_no_failure, lemma_prefix_no_failure, optional, release_start, step, tail_start,
    vars_known, wants_handle, StepView, SynthesisView,
};
use vstd::prelude::*;

verus! {

/// The request of a step that is a call.
pub open spec fn request_of(s: StepView) -> RequestView {
    match s {
        StepView::Call(request) => request,
        StepView::Done(_) => arbitrary(),
    }
}

/// Every request of a conversation, in the order made.
pub open spec fn conversation(v: SynthesisView) -> Seq<RequestView> {
    Seq::new(v.replies.len(), |k: int| request_of(asked(v, k)))
}

/// Whether `v` is a whole conversation: every answer in it was asked for,
/// and nothing more is.
pub open spec fn ran_to_end(v: SynthesisView) -> bool {
    &&& step(v) is Done
    &&& forall|k: int| 0 <= k < v.replies.len() ==> #[trigger] asked(v, k) is Call
}

/// Whether the call at position `p` adjusts a count.
pub open spec fn counts_at(arity: u32, p: int) -> bool {
    0 <= p < forward_len(arity) && !wants_handle(arity, p)
}

/// What the counting call at position `p` retains: the handle that was
/// answered just before it.
pub open spec fn retained_at(replies: Seq<usize>, p: int) -> Object {
    if p == 3 {
        Object::Declaration(replies[2])
    } else {
        Object::Term(replies[p - 1])
    }
}

/// How often the first `k` calls retain `o`.
pub open spec fn tally(arity: u32, replies: Seq<usize>, k: int, o: Object) -> nat
    decreases k,
{
    if k <= 0 {
        0
    } else {
        tally(arity, replies, k - 1, o) + if counts_at(arity, k - 1) && retained_at(replies, k - 1)
            == o {
            1nat
        } else {
            0nat
        }
    }
}

/// How often `o` stands in `objects`.
pub open spec fn count(objects: Seq<Object>, o: Object) -> nat
    decreases objects.len(),
{
    if objects.len() == 0 {
        0
    } else {
        count(objects.drop_last(), o) + if objects.last() == o {
            1nat
        } else {
            0nat
        }
    }
}

/// The first `k` calls that build the formula, as requests.
pub open spec fn forward_requests(v: SynthesisView, k: int) -> Seq<RequestView> {
    Seq::new(
        k as nat,
        |p: int|
            RequestView {
                ctx: v.ctx,
                call: forward(v.func, v.arity, v.index, answers(v.arity, v.replies))[p],
            },
    )
}

/// The requests that release `objects`, in order.
pub open spec fn release_requests(ctx: usize, objects: Seq<Object>) -> Seq<RequestView> {
    objects.map_values(|o: Object| release(ctx, o))
}

/// What a conversation has left to release once building is over.
pub open spec fn owed(v: SynthesisView) -> Seq<Object> {
    held(answers(v.arity, v.replies.take(cut(v.arity, v.replies))))
}

proof fn lemma_count_concat(left: Seq<Object>, right: Seq<Object>, o: Object)
    ensures
        count(left + right, o) == count(left, o) + count(right, o),
    decreases right.len(),
{
    if right.len() == 0 {
        assert(left + right == left);
    } else {
        assert((left + right).drop_last() == left + right.drop_last());
        lemma_count_concat(left, right.drop_last(), o);
    }
}

proof fn lemma_count_optional(x: Object, o: Object)
    ensures
        count(optional(x), o) == (if x.raw() != 0 && x == o {
            1nat
        } else {
            0nat
        }),
{
    reveal_with_fuel(count, 2);
}

/// A failure stays where it is in every beginning that holds it.
proof fn lemma_failure_prefix(arity: u32, replies: Seq<usize>, k: int)
    requires
        failed_at(arity, replies) is Some,
        failed_at(arity, replies)->Some_0 < k <= replies.len(),
    ensures
        failed_at(arity, replies.take(k)) == failed_at(arity, replies),
    decreases replies.len(),
{
    if k == replies.len() {
        assert(replies.take(k) == replies);
    } else {
        lemma_failure(arity, replies);
        assert(replies.drop_last().take(k) == replies.take(k));
        lemma_failure_prefix(arity, replies.drop_last(), k);
    }
}

/// A call that adjusts a count retains the handle answered just before it;
/// no other call that builds the formula touches a count.
proof fn lemma_counting_calls(func: usize, arity: u32, index: u32, replies: Seq<usize>, p: int)
    requires
        index < arity,
        0 <= p < forward_len(arity),
        p <= replies.len(),
    ensures
        counts_at(arity, p) ==> forward(func, arity, index, answers(arity, replies))[p]
            == CallView::IncRef(retained_at(replies, p)),
        !counts_at(arity, p) ==> !(forward(func, arity, index, answers(arity, replies))[p]
            is IncRef) && !(forward(func, arity, index, answers(arity, replies))[p] is DecRef),
{
    let a = answers(arity, replies);
    let t = tail_start(arity);
    if p < 4 {
        lemma_forward_head(func, arity, index, a);
    } else if p < t {
        lemma_forward_binder(func, arity, index, a, (p - 4) / 4);
    } else {
        lemma_forward_tail(func, arity, index, a);
    }
}

/// The calls that build the formula retain `o` as often as the tally says,
/// in their own environment only, and release nothing.
proof fn lemma_forward_occurrences(v: SynthesisView, k: int, ctx: usize, o: Object)
    requires
        v.index < v.arity,
        0 <= k <= forward_len(v.arity),
        k <= v.replies.len(),
    ensures
        occurrences(forward_requests(v, k), retain(ctx, o)) == (if ctx == v.ctx {
            tally(v.arity, v.replies, k, o)
        } else {
            0
        }),
        occurrences(forward_requests(v, k), release(ctx, o)) == 0,
    decreases k,
{
    if k > 0 {
        assert(forward_requests(v, k).drop_last() == forward_requests(v, k - 1));
        lemma_forward_occurrences(v, k - 1, ctx, o);
        lemma_counting_calls(v.func, v.arity, v.index, v.replies, k - 1);
    }
}

/// Releasing `objects` releases `o` as often as it stands among them, in
/// the one environment, and retains nothing.
proof fn lemma_release_occurrences(at: usize, objects: Seq<Object>, ctx: usize, o: Object)
    ensures
        occurrences(release_requests(at, objects), release(ctx, o)) == (if ctx == at {
            count(objects, o)
        } else {
            0
        }),
        occurrences(release_requests(at, objects), retain(ctx, o)) == 0,
    decreases objects.len(),
{
    if objects.len() > 0 {
        assert(release_requests(at, objects).drop_last() == release_requests(
            at,
            objects.drop_last(),
        ));
        lemma_release_occurrences(at, objects.drop_last(), ctx, o);
    }
}

/// A whole conversation is the calls that build the formula, up to where
/// releasing began, and then the release of everything owed.
proof fn lemma_conversation_split(v: SynthesisView)
    requires
        v.index < v.arity,
        ran_to_end(v),
    ensures
        0 <= release_start(v.arity, v.replies) <= forward_len(v.arity),
        release_start(v.arity, v.replies) <= v.replies.len(),
        v.replies.len() == release_start(v.arity, v.replies) + owed(v).len(),
        conversation(v) == forward_requests(v, release_start(v.arity, v.replies))
            + release_requests(v.ctx, owed(v)),
{
    let r = v.replies;
    let start = release_start(v.arity, r);
    let c = cut(v.arity, r);
    if failed_at(v.arity, r) is Some {
        lemma_failure(v.arity, r);
    }
    assert(v.after(r.len() as int).replies == r);
    assert(r.len() == start + owed(v).len()) by {
        if r.len() > start {
            lemma_asked_release(v, r.len() - 1);
        }
    }
    let whole = forward_requests(v, start) + release_requests(v.ctx, owed(v));
    assert forall|k: int| 0 <= k < r.len() implies conversation(v)[k] == whole[k] by {
        if k < start {
            lemma_asked_forward(v, k);
        } else {
            lemma_asked_release(v, k);
        }
    }
    assert(conversation(v) =~= whole);
}

/// What was asked before releasing began is the call of that position.
proof fn lemma_asked_forward(v: SynthesisView, k: int)
    requires
        v.index < v.arity,
        0 <= k < release_start(v.arity, v.replies),
        k <= v.replies.len(),
    ensures
        k < forward_len(v.arity),
        asked(v, k) == StepView::Call(
            RequestView {
                ctx: v.ctx,
                call: forward(v.func, v.arity, v.index, answers(v.arity, v.replies))[k],
            },
        ),
{
    let r = v.replies;
    if failed_at(v.arity, r) is Some {
        lemma_failure(v.arity, r);
        let j = failed_at(v.arity, r)->Some_0;
        lemma_prefix_no_failure(v.arity, r.take(j), k);
        assert(r.take(j).take(k) == r.take(k));
    } else {
        lemma_prefix_no_failure(v.arity, r, k);
    }
    lemma_forward_stable(v.func, v.arity, v.index, r, k);
}

/// What was asked once releasing had begun is the release of what was owed
/// at that position, if anything was asked at all.
proof fn lemma_asked_release(v: SynthesisView, k: int)
    requires
        v.index < v.arity,
        release_start(v.arity, v.replies) <= k <= v.replies.len(),
        asked(v, k) is Call,
    ensures
        k - release_start(v.arity, v.replies) < owed(v).len(),
        asked(v, k) == StepView::Call(
            release(v.ctx, owed(v)[k - release_start(v.arity, v.replies)]),
        ),
{
    let r = v.replies;
    let c = cut(v.arity, r);
    if failed_at(v.arity, r) is Some {
        lemma_failure(v.arity, r);
        lemma_failure_prefix(v.arity, r, k);
    } else {
        lemma_prefix_no_failure(v.arity, r, k);
    }
    assert(r.take(k).take(c) == r.take(c));
}

/// The tally over the calls that set up the inverse declaration.
proof fn lemma_tally_head(arity: u32, replies: Seq<usize>, o: Object)
    ensures
        tally(arity, replies, 0, o) == 0,
        tally(arity, replies, 1, o) == 0,
        tally(arity, replies, 2, o) == 0,
        tally(arity, replies, 3, o) == 0,
        tally(arity, replies, 4, o) == (if Object::Declaration(replies[2]) == o {
            1nat
        } else {
            0nat
        }),
{
    reveal_with_fuel(tally, 5);
}

/// The bound variables among the answers, as the terms they are.
pub open spec fn bound(replies: Seq<usize>, m: int) -> Seq<Object> {
    Seq::new(m as nat, |k: int| Object::Term(replies[6 + 4 * k]))
}

/// The tally over the calls for the first `m` bound variables, and part of
/// the way into the next.
proof fn lemma_tally_binders(arity: u32, replies: Seq<usize>, m: int, o: Object)
    requires
        0 <= m <= arity,
    ensures
        tally(arity, replies, 4 + 4 * m, o) == tally(arity, replies, 4, o) + count(
            bound(replies, m),
            o,
        ),
        m < arity ==> tally(arity, replies, 5 + 4 * m, o) == tally(arity, replies, 4 + 4 * m, o),
        m < arity ==> tally(arity, replies, 6 + 4 * m, o) == tally(arity, replies, 4 + 4 * m, o),
        m < arity ==> tally(arity, replies, 7 + 4 * m, o) == tally(arity, replies, 4 + 4 * m, o),
    decreases m,
{
    if m > 0 {
        lemma_tally_binders(arity, replies, m - 1, o);
        assert(bound(replies, m).drop_last() == bound(replies, m - 1));
        assert(counts_at(arity, 7 + 4 * (m - 1)));
        assert(tally(arity, replies, 4 + 4 * m, o) == tally(arity, replies, 7 + 4 * (m - 1), o) + (
        if retained_at(replies, 7 + 4 * (m - 1)) == o {
            1nat
        } else {
            0nat
        }));
    }
    if m < arity {
        assert(!counts_at(arity, 4 + 4 * m));
        assert(!counts_at(arity, 5 + 4 * m));
        assert(!counts_at(arity, 6 + 4 * m));
        assert(tally(arity, replies, 5 + 4 * m, o) == tally(arity, replies, 4 + 4 * m, o));
        assert(tally(arity, replies, 6 + 4 * m, o) == tally(arity, replies, 5 + 4 * m, o));
        assert(tally(arity, replies, 7 + 4 * m, o) == tally(arity, replies, 6 + 4 * m, o));
    }
}

/// `1` where `x` is `o`, `0` where it is not.
pub open spec fn one_if(x: Object, o: Object) -> nat {
    if x == o {
        1
    } else {
        0
    }
}

/// The tally over the calls that build the body, the trigger and the
/// quantifier.
proof fn lemma_tally_tail(arity: u32, replies: Seq<usize>, o: Object)
    ensures
        ({
            let t = tail_start(arity);
            let base = tally(arity, replies, t, o);
            let app = one_if(Object::Term(replies[t]), o);
            let inv = one_if(Object::Term(replies[t + 2]), o);
            let eq = one_if(Object::Term(replies[t + 4]), o);
            let q = one_if(Object::Term(replies[t + 7]), o);
            &&& tally(arity, replies, t + 1, o) == base
            &&& tally(arity, replies, t + 2, o) == base + app
            &&& tally(arity, replies, t + 3, o) == base + app
            &&& tally(arity, replies, t + 4, o) == base + app + inv
            &&& tally(arity, replies, t + 5, o) == base + app + inv
            &&& tally(arity, replies, t + 6, o) == base + app + inv + eq
            &&& tally(arity, replies, t + 7, o) == base + app + inv + eq
            &&& tally(arity, replies, t + 8, o) == base + app + inv + eq
            &&& tally(arity, replies, t + 9, o) == base + app + inv + eq + q
        }),
{
    let t = tail_start(arity);
    assert(tally(arity, replies, t + 1, o) == tally(arity, replies, t, o));
    assert(tally(arity, replies, t + 2, o) == tally(arity, replies, t + 1, o) + one_if(
        retained_at(replies, t + 1),
        o,
    ));
    assert(tally(arity, replies, t + 3, o) == tally(arity, replies, t + 2, o));
    assert(tally(arity, replies, t + 4, o) == tally(arity, replies, t + 3, o) + one_if(
        retained_at(replies, t + 3),
        o,
    ));
    assert(tally(arity, replies, t + 5, o) == tally(arity, replies, t + 4, o));
    assert(tally(arity, replies, t + 6, o) == tally(arity, replies, t + 5, o) + one_if(
        retained_at(replies, t + 5),
        o,
    ));
    assert(tally(arity, replies, t + 7, o) == tally(arity, replies, t + 6, o));
    assert(tally(arity, replies, t + 8, o) == tally(arity, replies, t + 7, o));
    assert(tally(arity, replies, t + 9, o) == tally(arity, replies, t + 8, o) + one_if(
        retained_at(replies, t + 8),
        o,
    ));
}

/// How often `o` is held, by what it would be held as.
proof fn lemma_count_held(arity: u32, early: Seq<usize>, o: Object)
    ensures
        ({
            let a = answers(arity, early);
            count(held(a), o) == count(optional(Object::Term(a.inverse_application)), o) + count(
                optional(Object::Term(a.application)),
                o,
            ) + count(a.vars.map_values(|x: usize| Object::Term(x)), o) + count(
                optional(Object::Declaration(a.inverse)),
                o,
            ) + count(optional(Object::Term(a.equality)), o)
        }),
{
    reveal(held);
    let a = answers(arity, early);
    let p1 = optional(Object::Term(a.inverse_application));
    let p2 = optional(Object::Term(a.application));
    let p3 = a.vars.map_values(|x: usize| Object::Term(x));
    let p4 = optional(Object::Declaration(a.inverse));
    let p5 = optional(Object::Term(a.equality));
    lemma_count_concat(p1, p2, o);
    lemma_count_concat(p1 + p2, p3, o);
    lemma_count_concat(p1 + p2 + p3, p4, o);
    lemma_count_concat(p1 + p2 + p3 + p4, p5, o);
}

/// When building is over, whatever was retained is owed, but for the
/// formula itself where there is one.
proof fn lemma_tally_matches_owed(v: SynthesisView, o: Object)
    requires
        v.index < v.arity,
        release_start(v.arity, v.replies) <= v.replies.len(),
    ensures
        tally(v.arity, v.replies, release_start(v.arity, v.replies), o) == count(owed(v), o) + (
        if failed_at(v.arity, v.replies) is None {
            one_if(Object::Term(v.replies[tail_start(v.arity) + 7]), o)
        } else {
            0nat
        }),
{
    let arity = v.arity;
    let r = v.replies;
    let t = tail_start(arity);
    let c = cut(arity, r);
    let early = r.take(c);
    let a = answers(arity, early);
    let known = vars_known(arity, c);
    lemma_count_held(arity, early, o);
    lemma_count_optional(Object::Term(a.inverse_application), o);
    lemma_count_optional(Object::Term(a.application), o);
    lemma_count_optional(Object::Declaration(a.inverse), o);
    lemma_count_optional(Object::Term(a.equality), o);
    lemma_tally_head(arity, r, o);
    lemma_tally_tail(arity, r, o);
    lemma_tally_binders(arity, r, known, o);
    if failed_at(arity, r) is Some {
        lemma_failure(arity, r);
        let j = failed_at(arity, r)->Some_0;
        if 2 < j {
            lemma_no_failure(arity, early, 2);
        }
        if t < j {
            lemma_no_failure(arity, early, t);
        }
        if t + 2 < j {
            lemma_no_failure(arity, early, t + 2);
        }
        if t + 4 < j {
            lemma_no_failure(arity, early, t + 4);
        }
    } else {
        assert(early == r.take(forward_len(arity)));
        lemma_prefix_no_failure(arity, r, forward_len(arity));
        lemma_no_failure(arity, early, 2);
        lemma_no_failure(arity, early, t);
        lemma_no_failure(arity, early, t + 2);
        lemma_no_failure(arity, early, t + 4);
    }
    assert(early.len() == c);
    assert forall|k: int| 0 <= k < known implies #[trigger] bound(r, known)[k] == Object::Term(
        early[6 + 4 * k],
    ) by {
        assert(6 + 4 * k < c);
    }
    assert(a.vars.map_values(|x: usize| Object::Term(x)) =~= bound(r, known));
}

/// A whole synthesis leaves the engine's counts as it found them, but for
/// one: where it ends with a formula, the formula is retained once, which
/// is the one reference that the wrapper it ends with holds. Where it ends
/// without one, whether refused or cut short by a null handle, every object
/// it retained on the way has been released again.
pub proof fn law_synthesis_balanced(v: SynthesisView, ctx: usize, o: Object)
    requires
        v.index < v.arity,
        ran_to_end(v),
    ensures
        net(conversation(v), ctx, o) == (match step(v) {
            StepView::Done(Ok(formula)) => if ctx == v.ctx && o == Object::Term(formula) {
                1int
            } else {
                0int
            },
            _ => 0int,
        }),
{
    let start = release_start(v.arity, v.replies);
    lemma_conversation_split(v);
    let building = forward_requests(v, start);
    let releasing = release_requests(v.ctx, owed(v));
    lemma_occurrences_concat(building, releasing, retain(ctx, o));
    lemma_occurrences_concat(building, releasing, release(ctx, o));
    lemma_forward_occurrences(v, start, ctx, o);
    lemma_release_occurrences(v.ctx, owed(v), ctx, o);
    lemma_tally_matches_owed(v, o);
}

/// In a whole synthesis nothing is released while the formula is being
/// built, and once releasing has begun nothing else is asked: no object is
/// let go before the last call that uses it.
pub proof fn law_releases_come_last(v: SynthesisView, k: int)
    requires
        v.index < v.arity,
        ran_to_end(v),
        0 <= k < v.replies.len(),
    ensures
        k < release_start(v.arity, v.replies) ==> !(conversation(v)[k].call is DecRef),
        k >= release_start(v.arity, v.replies) ==> conversation(v)[k].call is DecRef,
{
    lemma_conversation_split(v);
    if k < release_start(v.arity, v.replies) {
        lemma_counting_calls(v.func, v.arity, v.index, v.replies, k);
    }
}

} // verus!
