use crate::context::Context;
use crate::error::Error;
use crate::protocol::{Call, Handle, Object, Request, wrapped};
use crate::refcount::{release, retain};
use vstd::prelude::*;

verus! {

/// An assignment the engine found for a satisfiable set of assertions.
pub struct Model<'ctx> {
    ctx: &'ctx Context,
    z3_mdl: usize,
}

impl<'ctx> View for Model<'ctx> {
    type V = Handle;

    closed spec fn view(&self) -> Handle {
        Handle { ctx: self.ctx@, raw: self.z3_mdl }
    }
}

/// A model the engine has been asked for: once the engine has answered, the
/// answer is wrapped in the environment the request was made in.
pub struct PendingModel<'ctx> {
    ctx: &'ctx Context,
}

impl<'ctx> View for PendingModel<'ctx> {
    type V = usize;

    closed spec fn view(&self) -> usize {
        self.ctx@
    }
}

impl<'ctx> PendingModel<'ctx> {
    /// What waits for the answer to a request made in `ctx`.
    pub(crate) fn new(ctx: &'ctx Context) -> (r: PendingModel<'ctx>)
        ensures
            r@ == ctx@,
    {
        PendingModel { ctx }
    }

    /// Takes the engine's answer to the request and wraps it as
    /// [`Model::new`] does: the null handle, with which the engine refuses, is
    /// an error; any other comes wrapped, with the one request that retains
    /// it.
    pub fn resume(self, z3_mdl: usize) -> (r: Result<(Model<'ctx>, Request), Error>)
        ensures
            match r {
                Ok((wrapper, request)) => wrapped(self@, z3_mdl) == Ok::<Handle, Error>(wrapper@)
                    && request@ == retain(self@, Object::Model(z3_mdl)),
                Err(e) => wrapped(self@, z3_mdl) == Err::<Handle, Error>(e),
            },
    {
        Model::new(self.ctx, z3_mdl)
    }
}

impl<'ctx> Model<'ctx> {
    #[verifier::type_invariant]
    spec fn valid(&self) -> bool {
        self.z3_mdl != 0
    }

    /// The engine object whose count this wrapper holds one unit of.
    pub open spec fn object(&self) -> Object {
        Object::Model(self@.raw)
    }

    /// Wraps a handle the engine returned. The null handle is refused; for any
    /// other the wrapper comes with the one request that retains it.
    pub fn new(ctx: &'ctx Context, z3_mdl: usize) -> (r: Result<(Model<'ctx>, Request), Error>)
        ensures
            match r {
                Ok((wrapper, request)) => wrapped(ctx@, z3_mdl) == Ok::<Handle, Error>(wrapper@)
                    && request@ == retain(ctx@, Object::Model(z3_mdl)),
                Err(e) => wrapped(ctx@, z3_mdl) == Err::<Handle, Error>(e),
            },
    {
        if z3_mdl == 0 {
            return Err(Error::InvalidHandle);
        }
        let request = Request { ctx: ctx.raw(), call: Call::IncRef(Object::Model(z3_mdl)) };
        Ok((Model { ctx, z3_mdl }, request))
    }

    /// The handle, never null.
    pub fn raw(&self) -> (h: usize)
        ensures
            h == self@.raw,
            h != 0,
    {
        proof {
            use_type_invariant(self);
        }
        self.z3_mdl
    }

    /// The environment that owns the object.
    pub fn context(&self) -> (c: &'ctx Context)
        ensures
            c@ == self@.ctx,
    {
        self.ctx
    }

    /// Gives the wrapper up: the one request that releases what `new` retained.
    pub fn release(self) -> (r: Request)
        ensures
            r@ == release(self@.ctx, self.object()),
    {
        Request { ctx: self.ctx.raw(), call: Call::DecRef(Object::Model(self.z3_mdl)) }
    }
}

} // verus!
