//! The engine counts references by hand: each wrapper adds one to the count
//! of its object when it is made and takes one away when it is given up.
//! This module says what a sequence of requests does to those counts.

use crate::protocol::{CallView, Object, RequestView};
use vstd::prelude::*;

verus! {

/// The request that adds one to the engine's count of `object`.
pub open spec fn retain(ctx: usize, object: Object) -> RequestView {
    RequestView { ctx, call: CallView::IncRef(object) }
}

/// The request that takes one from the engine's count of `object`.
pub open spec fn release(ctx: usize, object: Object) -> RequestView {
    RequestView { ctx, call: CallView::DecRef(object) }
}

/// How many times `request` stands in `trace`.
pub open spec fn occurrences(trace: Seq<RequestView>, request: RequestView) -> nat
    decreases trace.len(),
{
    if trace.len() == 0 {
        0
    } else {
        occurrences(trace.drop_last(), request) + if trace.last() == request {
            1nat
        } else {
            0nat
        }
    }
}

/// What performing `trace` does to the engine's count of `object` in the
/// environment `ctx`.
pub open spec fn net(trace: Seq<RequestView>, ctx: usize, object: Object) -> int {
    occurrences(trace, retain(ctx, object)) - occurrences(trace, release(ctx, object))
}

/// The requests that come with wrapping each of `owned`, an object and its
/// environment, in order.
pub open spec fn retains(owned: Seq<(usize, Object)>) -> Seq<RequestView> {
    owned.map_values(|o: (usize, Object)| retain(o.0, o.1))
}

/// The requests that come of giving up a wrapper of each of `owned`, in order.
pub open spec fn releases(owned: Seq<(usize, Object)>) -> Seq<RequestView> {
    owned.map_values(|o: (usize, Object)| release(o.0, o.1))
}

/// Occurrences add up over concatenation.
pub proof fn lemma_occurrences_concat(
    left: Seq<RequestView>,
    right: Seq<RequestView>,
    request: RequestView,
)
    ensures
        occurrences(left + right, request) == occurrences(left, request) + occurrences(
            right,
            request,
        ),
    decreases right.len(),
{
    if right.len() == 0 {
        assert(left + right == left);
    } else {
        assert((left + right).drop_last() == left + right.drop_last());
        lemma_occurrences_concat(left, right.drop_last(), request);
    }
}

/// Wrapping retains each object as often as giving the wrappers up releases
/// it, and neither does the other's work.
pub proof fn lemma_retains_match_releases(owned: Seq<(usize, Object)>, ctx: usize, object: Object)
    ensures
        occurrences(retains(owned), retain(ctx, object)) == occurrences(
            releases(owned),
            release(ctx, object),
        ),
        occurrences(retains(owned), release(ctx, object)) == 0,
        occurrences(releases(owned), retain(ctx, object)) == 0,
    decreases owned.len(),
{
    if owned.len() > 0 {
        assert(retains(owned).drop_last() == retains(owned.drop_last()));
        assert(releases(owned).drop_last() == releases(owned.drop_last()));
        lemma_retains_match_releases(owned.drop_last(), ctx, object);
    }
}

/// Making any number of wrappers and giving them all up, in whatever order
/// the requests are performed, leaves every count where it was: nothing
/// leaks and nothing is released twice.
///
/// `owned` lists what each wrapper holds; `trace` is any arrangement of the
/// requests that came with making them and with giving them up.
pub proof fn law_wrappers_balanced(
    owned: Seq<(usize, Object)>,
    trace: Seq<RequestView>,
    ctx: usize,
    object: Object,
)
    requires
        forall|request: RequestView| #[trigger]
            occurrences(trace, request) == occurrences(retains(owned), request) + occurrences(
                releases(owned),
                request,
            ),
    ensures
        net(trace, ctx, object) == 0,
{
    lemma_retains_match_releases(owned, ctx, object);
}

} // verus!
