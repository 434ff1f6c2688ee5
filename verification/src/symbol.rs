use crate::context::Context;
use crate::error::Error;
use crate::protocol::{Call, Handle, Object, Request, wrapped};
use crate::refcount::{release, retain};
use vstd::prelude::*;

verus! {

/// A name, as the engine interned it.
pub struct Symbol<'ctx> {
    ctx: &'ctx Context,
    z3_sym: usize,
}

impl<'ctx> View for Symbol<'ctx> {
    type V = Handle;

    closed spec fn view(&self) -> Handle {
        Handle { ctx: self.ctx@, raw: self.z3_sym }
    }
}

impl<'ctx> Symbol<'ctx> {
    #[verifier::type_invariant]
    spec fn valid(&self) -> bool {
        self.z3_sym != 0
    }

    /// The engine object whose count this wrapper holds one unit of.
    pub open spec fn object(&self) -> Object {
        Object::Symbol(self@.raw)
    }

    /// Wraps a handle the engine returned. The null handle is refused; for any
    /// other the wrapper comes with the one request that retains it.
    pub fn new(ctx: &'ctx Context, z3_sym: usize) -> (r: Result<(Symbol<'ctx>, Request), Error>)
        ensures
            match r {
                Ok((wrapper, request)) => wrapped(ctx@, z3_sym) == Ok::<Handle, Error>(wrapper@)
                    && request@ == retain(ctx@, Object::Symbol(z3_sym)),
                Err(e) => wrapped(ctx@, z3_sym) == Err::<Handle, Error>(e),
            },
    {
        if z3_sym == 0 {
            return Err(Error::InvalidHandle);
        }
        let request = Request { ctx: ctx.raw(), call: Call::IncRef(Object::Symbol(z3_sym)) };
        Ok((Symbol { ctx, z3_sym }, request))
    }

    /// The handle, never null.
    pub fn raw(&self) -> (h: usize)
        ensures
            h == self@.raw,
            h != 0,
    {
        proof {
            use_type_invariant(self);
        }
        self.z3_sym
    }

    /// The environment that owns the object.
    pub fn context(&self) -> (c: &'ctx Context)
        ensures
            c@ == self@.ctx,
    {
        self.ctx
    }

    /// Gives the wrapper up: the one request that releases what `new` retained.
    pub fn release(self) -> (r: Request)
        ensures
            r@ == release(self@.ctx, self.object()),
    {
        Request { ctx: self.ctx.raw(), call: Call::DecRef(Object::Symbol(self.z3_sym)) }
    }
}

} // verus!
