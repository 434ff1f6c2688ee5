use crate::context::Context;
use crate::error::Error;
use crate::protocol::{Call, CallView, Handle, Object, Request, RequestView, wrapped};
use crate::refcount::{release, retain};
use vstd::prelude::*;

verus! {

/// A trigger: a hint for where the engine instantiates a quantifier.
///
/// Like a declaration, its handle is reinterpreted as a term wherever the
/// engine counts, digests or compares it.
pub struct Pattern<'ctx> {
    ctx: &'ctx Context,
    z3_func: usize,
}

impl<'ctx> View for Pattern<'ctx> {
    type V = Handle;

    closed spec fn view(&self) -> Handle {
        Handle { ctx: self.ctx@, raw: self.z3_func }
    }
}

impl<'ctx> Pattern<'ctx> {
    #[verifier::type_invariant]
    spec fn valid(&self) -> bool {
        self.z3_func != 0
    }

    /// The request for the engine's digest of the trigger.
    pub open spec fn digest_request(&self) -> RequestView {
        RequestView { ctx: self@.ctx, call: CallView::GetAstHash(self.object()) }
    }

    /// The request that asks the engine whether this and `other` are the same.
    pub open spec fn same_request(&self, other: Pattern<'ctx>) -> RequestView {
        RequestView {
            ctx: self@.ctx,
            call: CallView::IsEqFuncDecl { left: self@.raw, right: other@.raw },
        }
    }

    /// The engine object whose count this wrapper holds one unit of.
    pub open spec fn object(&self) -> Object {
        Object::Declaration(self@.raw)
    }

    /// Wraps a handle the engine returned. The null handle is refused; for any
    /// other the wrapper comes with the one request that retains it.
    pub fn new(ctx: &'ctx Context, func: usize) -> (r: Result<(Pattern<'ctx>, Request), Error>)
        ensures
            match r {
                Ok((wrapper, request)) => wrapped(ctx@, func) == Ok::<Handle, Error>(wrapper@)
                    && request@ == retain(ctx@, Object::Declaration(func)),
                Err(e) => wrapped(ctx@, func) == Err::<Handle, Error>(e),
            },
    {
        if func == 0 {
            return Err(Error::InvalidHandle);
        }
        let request = Request { ctx: ctx.raw(), call: Call::IncRef(Object::Declaration(func)) };
        Ok((Pattern { ctx, z3_func: func }, request))
    }

    /// The request for the engine's digest of this trigger: it depends on
    /// the engine object alone, not on the wrapper.
    pub fn structural_hash(&self) -> (r: Request)
        ensures
            r@ == self.digest_request(),
    {
        Request { ctx: self.ctx.raw(), call: Call::GetAstHash(Object::Declaration(self.z3_func)) }
    }

    /// The request that asks the engine whether this trigger and `other` are
    /// the same. The answer is the engine's, not a comparison of addresses.
    pub fn structural_eq(&self, other: &Pattern<'ctx>) -> (r: Request)
        ensures
            r@ == self.same_request(*other),
    {
        Request {
            ctx: self.ctx.raw(),
            call: Call::IsEqFuncDecl { left: self.z3_func, right: other.z3_func },
        }
    }

    /// Identity is the engine's: two wrappers of one handle in one
    /// environment ask for the same digest, put the same question when
    /// compared with a third, and are compared by the handle they share.
    pub proof fn law_structural_identity(a: Pattern<'ctx>, b: Pattern<'ctx>, c: Pattern<'ctx>)
        requires
            a@ == b@,
        ensures
            a.digest_request() == b.digest_request(),
            a.same_request(c) == b.same_request(c),
            c.same_request(a) == c.same_request(b),
            a.same_request(b).call == (CallView::IsEqFuncDecl { left: a@.raw, right: a@.raw }),
    {
    }

    /// The handle, never null.
    pub fn raw(&self) -> (h: usize)
        ensures
            h == self@.raw,
            h != 0,
    {
        proof {
            use_type_invariant(self);
        }
        self.z3_func
    }

    /// The environment that owns the trigger.
    pub fn context(&self) -> (c: &'ctx Context)
        ensures
            c@ == self@.ctx,
    {
        self.ctx
    }

    /// Gives the wrapper up: the one request that releases what `new` retained.
    pub fn release(self) -> (r: Request)
        ensures
            r@ == release(self@.ctx, self.object()),
    {
        Request { ctx: self.ctx.raw(), call: Call::DecRef(Object::Declaration(self.z3_func)) }
    }
}

} // verus!
