use crate::error::Error;
use crate::protocol::{Call, CallView, Request, RequestView};
use vstd::prelude::*;

verus! {

/// An environment: the engine context that owns every other object.
///
/// Wrappers borrow their environment, so none of them outlives it.
pub struct Context {
    z3_ctx: usize,
}

impl View for Context {
    type V = usize;

    closed spec fn view(&self) -> usize {
        self.z3_ctx
    }
}

impl Context {
    #[verifier::type_invariant]
    spec fn valid(&self) -> bool {
        self.z3_ctx != 0
    }

    /// Wraps the context handle the engine allocated; the null handle is refused.
    pub fn new(z3_ctx: usize) -> (r: Result<Context, Error>)
        ensures
            z3_ctx == 0 ==> r == Err::<Context, Error>(Error::InvalidHandle),
            z3_ctx != 0 ==> r is Ok && r->Ok_0@ == z3_ctx,
    {
        if z3_ctx == 0 {
            Err(Error::InvalidHandle)
        } else {
            Ok(Context { z3_ctx })
        }
    }

    /// The context handle, never null.
    pub fn raw(&self) -> (h: usize)
        ensures
            h == self@,
            h != 0,
    {
        proof {
            use_type_invariant(self);
        }
        self.z3_ctx
    }

    /// Gives the environment up: the request that deletes the engine context.
    /// Taking `self` by value, it can only be called once no wrapper borrows it.
    pub fn destroy(self) -> (r: Request)
        ensures
            r@ == (RequestView { ctx: self@, call: CallView::DelContext }),
    {
        Request { ctx: self.z3_ctx, call: Call::DelContext }
    }
}

} // verus!
