use crate::context::Context;
use crate::error::Error;
use crate::protocol::{Call, CallView, Handle, Object, Request, RequestView, wrapped};
use crate::refcount::{release, retain};
use vstd::prelude::*;

verus! {

/// A term: the engine's one representation of formulas and expressions.
pub struct Ast<'ctx> {
    ctx: &'ctx Context,
    z3_ast: usize,
}

impl<'ctx> View for Ast<'ctx> {
    type V = Handle;

    closed spec fn view(&self) -> Handle {
        Handle { ctx: self.ctx@, raw: self.z3_ast }
    }
}

/// A term the engine has been asked for: once the engine has answered, the
/// answer is wrapped in the environment the request was made in.
pub struct PendingAst<'ctx> {
    ctx: &'ctx Context,
}

impl<'ctx> View for PendingAst<'ctx> {
    type V = usize;

    closed spec fn view(&self) -> usize {
        self.ctx@
    }
}

impl<'ctx> PendingAst<'ctx> {
    /// What waits for the answer to a request made in `ctx`.
    pub(crate) fn new(ctx: &'ctx Context) -> (r: PendingAst<'ctx>)
        ensures
            r@ == ctx@,
    {
        PendingAst { ctx }
    }

    /// Takes the engine's answer to the request and wraps it as
    /// [`Ast::new`] does: the null handle, with which the engine refuses, is
    /// an error; any other comes wrapped, with the one request that retains
    /// it.
    pub fn resume(self, z3_ast: usize) -> (r: Result<(Ast<'ctx>, Request), Error>)
        ensures
            match r {
                Ok((wrapper, request)) => wrapped(self@, z3_ast) == Ok::<Handle, Error>(wrapper@)
                    && request@ == retain(self@, Object::Term(z3_ast)),
                Err(e) => wrapped(self@, z3_ast) == Err::<Handle, Error>(e),
            },
    {
        Ast::new(self.ctx, z3_ast)
    }
}

impl<'ctx> Ast<'ctx> {
    #[verifier::type_invariant]
    spec fn valid(&self) -> bool {
        self.z3_ast != 0
    }

    /// The request for the engine's digest of the term.
    pub open spec fn digest_request(&self) -> RequestView {
        RequestView { ctx: self@.ctx, call: CallView::GetAstHash(self.object()) }
    }

    /// The request that asks the engine whether this and `other` are the same.
    pub open spec fn same_request(&self, other: Ast<'ctx>) -> RequestView {
        RequestView {
            ctx: self@.ctx,
            call: CallView::IsEqAst { left: self@.raw, right: other@.raw },
        }
    }

    /// The engine object whose count this wrapper holds one unit of.
    pub open spec fn object(&self) -> Object {
        Object::Term(self@.raw)
    }

    /// Wraps a handle the engine returned. The null handle is refused; for any
    /// other the wrapper comes with the one request that retains it.
    pub fn new(ctx: &'ctx Context, z3_ast: usize) -> (r: Result<(Ast<'ctx>, Request), Error>)
        ensures
            match r {
                Ok((wrapper, request)) => wrapped(ctx@, z3_ast) == Ok::<Handle, Error>(wrapper@)
                    && request@ == retain(ctx@, Object::Term(z3_ast)),
                Err(e) => wrapped(ctx@, z3_ast) == Err::<Handle, Error>(e),
            },
    {
        if z3_ast == 0 {
            return Err(Error::InvalidHandle);
        }
        let request = Request { ctx: ctx.raw(), call: Call::IncRef(Object::Term(z3_ast)) };
        Ok((Ast { ctx, z3_ast }, request))
    }

    /// Wraps a term that the caller has already retained on the wrapper's
    /// behalf, so that no further request is due.
    pub(crate) fn retained(ctx: &'ctx Context, z3_ast: usize) -> (t: Ast<'ctx>)
        requires
            z3_ast != 0,
        ensures
            t@ == (Handle { ctx: ctx@, raw: z3_ast }),
    {
        Ast { ctx, z3_ast }
    }

    /// The request for the engine's digest of this term: it depends on the
    /// engine object alone, not on the wrapper.
    pub fn structural_hash(&self) -> (r: Request)
        ensures
            r@ == self.digest_request(),
    {
        Request { ctx: self.ctx.raw(), call: Call::GetAstHash(Object::Term(self.z3_ast)) }
    }

    /// The request that asks the engine whether this term and `other` are
    /// the same term. The answer is the engine's, not a comparison of
    /// addresses.
    pub fn structural_eq(&self, other: &Ast<'ctx>) -> (r: Request)
        ensures
            r@ == self.same_request(*other),
    {
        Request {
            ctx: self.ctx.raw(),
            call: Call::IsEqAst { left: self.z3_ast, right: other.z3_ast },
        }
    }

    /// Identity is the engine's: two wrappers of one handle in one
    /// environment ask for the same digest, put the same question when
    /// compared with a third, and are compared by the handle they share.
    pub proof fn law_structural_identity(a: Ast<'ctx>, b: Ast<'ctx>, c: Ast<'ctx>)
        requires
            a@ == b@,
        ensures
            a.digest_request() == b.digest_request(),
            a.same_request(c) == b.same_request(c),
            c.same_request(a) == c.same_request(b),
            a.same_request(b).call == (CallView::IsEqAst { left: a@.raw, right: a@.raw }),
    {
    }

    /// The handle, never null.
    pub fn raw(&self) -> (h: usize)
        ensures
            h == self@.raw,
            h != 0,
    {
        proof {
            use_type_invariant(self);
        }
        self.z3_ast
    }

    /// The environment that owns the object.
    pub fn context(&self) -> (c: &'ctx Context)
        ensures
            c@ == self@.ctx,
    {
        self.ctx
    }

    /// Gives the wrapper up: the one request that releases what `new` retained.
    pub fn release(self) -> (r: Request)
        ensures
            r@ == release(self@.ctx, self.object()),
    {
        Request { ctx: self.ctx.raw(), call: Call::DecRef(Object::Term(self.z3_ast)) }
    }
}

} // verus!
