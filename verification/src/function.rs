use crate::ast::{Ast, PendingAst};
use crate::context::Context;
use crate::error::Error;
use crate::protocol::{Call, CallView, Handle, Object, Request, RequestView, wrapped};
use crate::refcount::{release, retain};
use crate::sort::Sort;
use crate::symbol::Symbol;
use crate::script::StartView;
use crate::synthesis::AxiomStart;
use vstd::prelude::*;

verus! {

/// A function declaration: a name, the sorts of its arguments and the sort
/// of its result. The engine keeps the signature; the wrapper asks for it
/// when it is needed and caches nothing.
pub struct Function<'ctx> {
    ctx: &'ctx Context,
    z3_func: usize,
}

impl<'ctx> View for Function<'ctx> {
    type V = Handle;

    closed spec fn view(&self) -> Handle {
        Handle { ctx: self.ctx@, raw: self.z3_func }
    }
}

/// The handles of `sorts`, in order.
pub open spec fn sort_handles<'a, 'ctx>(sorts: Seq<&'a Sort<'ctx>>) -> Seq<usize> {
    Seq::new(sorts.len(), |k: int| sorts[k]@.raw)
}

/// The handles of `terms`, in order.
pub open spec fn term_handles<'a, 'ctx>(terms: Seq<&'a Ast<'ctx>>) -> Seq<usize> {
    Seq::new(terms.len(), |k: int| terms[k]@.raw)
}

/// The request that declares a function named `name` from `domain` to `range`.
pub open spec fn declaration(name: Handle, domain: Seq<usize>, range: Handle) -> RequestView {
    RequestView {
        ctx: name.ctx,
        call: CallView::MkFuncDecl { name: name.raw, domain, range: range.raw },
    }
}

/// The request that declares a function from `domain` to `range` under a
/// name of the engine's making that starts with `prefix`.
pub open spec fn fresh_declaration(
    prefix: Seq<char>,
    domain: Seq<usize>,
    range: Handle,
) -> RequestView {
    RequestView {
        ctx: range.ctx,
        call: CallView::MkFreshFuncDecl { prefix, domain, range: range.raw },
    }
}

/// Whether `text` can be handed to the engine as a name: the engine reads it
/// up to the first NUL, so it must hold none.
pub open spec fn nul_free(text: Seq<char>) -> bool {
    forall|i: int| 0 <= i < text.len() ==> text[i] != '\0'
}

/// The request that applies the declaration `func` to `args`.
pub open spec fn application(func: Handle, args: Seq<usize>) -> RequestView {
    RequestView { ctx: func.ctx, call: CallView::MkApp { func: func.raw, args } }
}

/// Declaring a function and applying it: the binding passes on what it is
/// given and refuses nothing itself. Once the engine has answered the
/// declaration with a handle, that handle is wrapped, and the wrapper
/// applied to any arguments asks for the application of that very handle
/// to those very arguments, however many. What the engine answers is
/// wrapped as a term unless it is the null handle, with which the engine
/// rejects an application that does not fit the declaration.
pub proof fn law_declare_then_apply(ctx: usize, declared: usize, args: Seq<usize>, applied: usize)
    requires
        declared != 0,
    ensures
        wrapped(ctx, declared) == Ok::<Handle, Error>(Handle { ctx, raw: declared }),
        application(wrapped(ctx, declared)->Ok_0, args) == (RequestView {
            ctx,
            call: CallView::MkApp { func: declared, args },
        }),
        applied != 0 ==> wrapped(ctx, applied) == Ok::<Handle, Error>(Handle { ctx, raw: applied }),
        applied == 0 ==> wrapped(ctx, applied) == Err::<Handle, Error>(Error::InvalidHandle),
{
}

/// Tells whether `text` holds no NUL, and so whether it can be the prefix
/// of a fresh declaration.
pub fn is_nul_free(text: &str) -> (b: bool)
    ensures
        b == nul_free(text@),
{
    let len: usize = text.unicode_len();
    let mut k: usize = 0;
    while k < len
        invariant
            k <= len,
            len == text@.len(),
            forall|i: int| 0 <= i < k ==> text@[i] != '\0',
        decreases len - k,
    {
        if text.get_char(k) == '\0' {
            return false;
        }
        k = k + 1;
    }
    true
}

fn collect_sorts<'a, 'ctx>(sorts: &[&'a Sort<'ctx>]) -> (out: Vec<usize>)
    ensures
        out@ == sort_handles(sorts@),
{
    let mut out: Vec<usize> = Vec::new();
    let mut k: usize = 0;
    while k < sorts.len()
        invariant
            k <= sorts@.len(),
            out@ == Seq::new(k as nat, |m: int| sorts@[m]@.raw),
        decreases sorts@.len() - k,
    {
        out.push(sorts[k].raw());
        k = k + 1;
    }
    out
}

fn collect_terms<'a, 'ctx>(terms: &[&'a Ast<'ctx>]) -> (out: Vec<usize>)
    ensures
        out@ == term_handles(terms@),
{
    let mut out: Vec<usize> = Vec::new();
    let mut k: usize = 0;
    while k < terms.len()
        invariant
            k <= terms@.len(),
            out@ == Seq::new(k as nat, |m: int| terms@[m]@.raw),
        decreases terms@.len() - k,
    {
        out.push(terms[k].raw());
        k = k + 1;
    }
    out
}

/// A declaration the engine has been asked for: once the engine has answered, the
/// answer is wrapped in the environment the request was made in.
pub struct PendingFunction<'ctx> {
    ctx: &'ctx Context,
}

impl<'ctx> View for PendingFunction<'ctx> {
    type V = usize;

    closed spec fn view(&self) -> usize {
        self.ctx@
    }
}

impl<'ctx> PendingFunction<'ctx> {
    /// What waits for the answer to a request made in `ctx`.
    pub(crate) fn new(ctx: &'ctx Context) -> (r: PendingFunction<'ctx>)
        ensures
            r@ == ctx@,
    {
        PendingFunction { ctx }
    }

    /// Takes the engine's answer to the request and wraps it as
    /// [`Function::new`] does: the null handle, with which the engine refuses, is
    /// an error; any other comes wrapped, with the one request that retains
    /// it.
    pub fn resume(self, func: usize) -> (r: Result<(Function<'ctx>, Request), Error>)
        ensures
            match r {
                Ok((wrapper, request)) => wrapped(self@, func) == Ok::<Handle, Error>(wrapper@)
                    && request@ == retain(self@, Object::Declaration(func)),
                Err(e) => wrapped(self@, func) == Err::<Handle, Error>(e),
            },
    {
        Function::new(self.ctx, func)
    }
}

impl<'ctx> Function<'ctx> {
    #[verifier::type_invariant]
    spec fn valid(&self) -> bool {
        self.z3_func != 0
    }

    /// The request for the engine's digest of the declaration.
    pub open spec fn digest_request(&self) -> RequestView {
        RequestView { ctx: self@.ctx, call: CallView::GetAstHash(self.object()) }
    }

    /// The request that asks the engine whether this and `other` are the same.
    pub open spec fn same_request(&self, other: Function<'ctx>) -> RequestView {
        RequestView {
            ctx: self@.ctx,
            call: CallView::IsEqFuncDecl { left: self@.raw, right: other@.raw },
        }
    }

    /// The engine object whose count this wrapper holds one unit of: the
    /// declaration, reinterpreted as a term.
    pub open spec fn object(&self) -> Object {
        Object::Declaration(self@.raw)
    }

    /// Wraps a declaration handle the engine returned. The null handle is
    /// refused; for any other the wrapper comes with the one request that
    /// retains it.
    pub fn new(ctx: &'ctx Context, func: usize) -> (r: Result<(Function<'ctx>, Request), Error>)
        ensures
            match r {
                Ok((wrapper, request)) => wrapped(ctx@, func) == Ok::<Handle, Error>(wrapper@)
                    && request@ == retain(ctx@, Object::Declaration(func)),
                Err(e) => wrapped(ctx@, func) == Err::<Handle, Error>(e),
            },
    {
        if func == 0 {
            return Err(Error::InvalidHandle);
        }
        let request = Request { ctx: ctx.raw(), call: Call::IncRef(Object::Declaration(func)) };
        Ok((Function { ctx, z3_func: func }, request))
    }

    /// Declares a function named `sym` from `domain` to `range`, in the
    /// environment of `sym`: the request that does so, and the declaration
    /// that waits for the engine's answer. The signature goes to the engine
    /// as it is, whatever its length.
    pub fn new_decl<'a>(sym: &Symbol<'ctx>, domain: &[&'a Sort<'ctx>], range: &Sort<'ctx>) -> (r: (
        PendingFunction<'ctx>,
        Request,
    ))
        ensures
            r.0@ == sym@.ctx,
            r.1@ == declaration(sym@, sort_handles(domain@), range@),
    {
        let request = Request {
            ctx: sym.context().raw(),
            call: Call::MkFuncDecl {
                name: sym.raw(),
                domain: collect_sorts(domain),
                range: range.raw(),
            },
        };
        (PendingFunction::new(sym.context()), request)
    }

    /// Declares a function from `domain` to `range` under a name that the
    /// engine makes up from `prefix` and that no other declaration has, in
    /// the environment of `range`: the request that does so, and the
    /// declaration that waits for the engine's answer.
    ///
    /// A prefix with a NUL in it is no name the engine can read: a caller
    /// that has one must fail before it comes here, and so before anything
    /// is asked of the engine.
    pub fn fresh_decl<'a>(prefix: &str, domain: &[&'a Sort<'ctx>], range: &Sort<'ctx>) -> (r: (
        PendingFunction<'ctx>,
        Request,
    ))
        requires
            nul_free(prefix@),
        ensures
            r.0@ == range@.ctx,
            r.1@ == fresh_declaration(prefix@, sort_handles(domain@), range@),
    {
        let request = Request {
            ctx: range.context().raw(),
            call: Call::MkFreshFuncDecl {
                prefix: prefix.to_string(),
                domain: collect_sorts(domain),
                range: range.raw(),
            },
        };
        (PendingFunction::new(range.context()), request)
    }

    /// Applies this declaration to `args`: the request that does so, and the
    /// term that waits for the engine's answer. Every argument is passed on,
    /// in order; whether there are as many as the declaration takes is for
    /// the engine to judge, which answers a mismatch with the null handle.
    pub fn call<'a>(&self, args: &[&'a Ast<'ctx>]) -> (r: (PendingAst<'ctx>, Request))
        ensures
            r.0@ == self@.ctx,
            r.1@ == application(self@, term_handles(args@)),
    {
        let request = Request {
            ctx: self.ctx.raw(),
            call: Call::MkApp { func: self.z3_func, args: collect_terms(args) },
        };
        (PendingAst::new(self.ctx), request)
    }

    /// Opens the synthesis of the formula that makes this declaration
    /// injective in its argument at `i_arg`: a fresh inverse applied to the
    /// declaration applied to any arguments gives back the one at `i_arg`.
    ///
    /// The synthesis is a conversation with the engine, to be held without
    /// letting go of the lock. It opens with the question of how many
    /// arguments the declaration takes; [`AxiomStart::resume`] takes the
    /// answer, and [`crate::script::step`] lays down the rest.
    pub fn injective_axiom(&self, i_arg: usize) -> (r: (AxiomStart<'ctx>, Request))
        ensures
            r.0@ == (StartView { ctx: self@.ctx, func: self@.raw, i_arg }),
            r.1@ == r.0@.question(),
    {
        AxiomStart::open(self.ctx, self.z3_func, i_arg)
    }

    /// The request for the engine's digest of this declaration, taken of the
    /// declaration reinterpreted as a term: it depends on the engine object
    /// alone, not on the wrapper.
    pub fn structural_hash(&self) -> (r: Request)
        ensures
            r@ == self.digest_request(),
    {
        Request { ctx: self.ctx.raw(), call: Call::GetAstHash(Object::Declaration(self.z3_func)) }
    }

    /// The request that asks the engine whether this declaration and `other`
    /// are the same declaration. The answer is the engine's, not a
    /// comparison of addresses.
    pub fn structural_eq(&self, other: &Function<'ctx>) -> (r: Request)
        ensures
            r@ == self.same_request(*other),
    {
        Request {
            ctx: self.ctx.raw(),
            call: Call::IsEqFuncDecl { left: self.z3_func, right: other.z3_func },
        }
    }

    /// Identity is the engine's: two wrappers of one handle in one
    /// environment ask for the same digest, put the same question when
    /// compared with a third, and are compared by the handle they share.
    pub proof fn law_structural_identity(a: Function<'ctx>, b: Function<'ctx>, c: Function<'ctx>)
        requires
            a@ == b@,
        ensures
            a.digest_request() == b.digest_request(),
            a.same_request(c) == b.same_request(c),
            c.same_request(a) == c.same_request(b),
            a.same_request(b).call == (CallView::IsEqFuncDecl { left: a@.raw, right: a@.raw }),
    {
    }

    /// The handle, never null.
    pub fn raw(&self) -> (h: usize)
        ensures
            h == self@.raw,
            h != 0,
    {
        proof {
            use_type_invariant(self);
        }
        self.z3_func
    }

    /// The environment that owns the declaration.
    pub fn context(&self) -> (c: &'ctx Context)
        ensures
            c@ == self@.ctx,
    {
        self.ctx
    }

    /// Gives the wrapper up: the one request that releases what `new` retained.
    pub fn release(self) -> (r: Request)
        ensures
            r@ == release(self@.ctx, self.object()),
    {
        Request { ctx: self.ctx.raw(), call: Call::DecRef(Object::Declaration(self.z3_func)) }
    }
}

} // verus!
