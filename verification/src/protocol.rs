use crate::error::Error;
use vstd::prelude::*;

verus! {

/// An engine object whose reference count the binding adjusts.
///
/// The engine counts terms itself; sorts and declarations are terms in
/// disguise and are reinterpreted as such before they are counted. Solvers,
/// models and optimizers each have a counter of their own.
#[derive(Debug, Clone, Copy, PartialEq, Eq, Hash, Structural)]
pub enum Object {
    Symbol(usize),
    Sort(usize),
    Term(usize),
    /// A declaration handle, reinterpreted as a term.
    Declaration(usize),
    Solver(usize),
    Model(usize),
    Optimize(usize),
}

impl Object {
    /// The handle underneath, whatever its kind.
    pub open spec fn raw(self) -> usize {
        match self {
            Object::Symbol(h) => h,
            Object::Sort(h) => h,
            Object::Term(h) => h,
            Object::Declaration(h) => h,
            Object::Solver(h) => h,
            Object::Model(h) => h,
            Object::Optimize(h) => h,
        }
    }
}

/// One call into the engine, with plain handles for operands.
#[derive(Debug, Clone, PartialEq, Eq)]
pub enum Call {
    IncRef(Object),
    DecRef(Object),
    DelContext,
    MkIntSymbol { index: u32 },
    MkFuncDecl { name: usize, domain: Vec<usize>, range: usize },
    MkFreshFuncDecl { prefix: String, domain: Vec<usize>, range: usize },
    MkApp { func: usize, args: Vec<usize> },
    GetDomainSize { func: usize },
    GetDomain { func: usize, index: u32 },
    GetRange { func: usize },
    MkBound { index: u32, sort: usize },
    MkEq { left: usize, right: usize },
    MkPattern { terms: Vec<usize> },
    MkForall {
        weight: u32,
        patterns: Vec<usize>,
        sorts: Vec<usize>,
        names: Vec<usize>,
        body: usize,
    },
    GetAstHash(Object),
    IsEqAst { left: usize, right: usize },
    IsEqFuncDecl { left: usize, right: usize },
    MkSolver,
    SolverAssert { solver: usize, term: usize },
    SolverCheck { solver: usize },
    SolverGetModel { solver: usize },
}

/// What a [`Call`] says, with sequences in place of vectors and strings.
#[verifier::ext_equal]
pub enum CallView {
    IncRef(Object),
    DecRef(Object),
    DelContext,
    MkIntSymbol { index: u32 },
    MkFuncDecl { name: usize, domain: Seq<usize>, range: usize },
    MkFreshFuncDecl { prefix: Seq<char>, domain: Seq<usize>, range: usize },
    MkApp { func: usize, args: Seq<usize> },
    GetDomainSize { func: usize },
    GetDomain { func: usize, index: u32 },
    GetRange { func: usize },
    MkBound { index: u32, sort: usize },
    MkEq { left: usize, right: usize },
    MkPattern { terms: Seq<usize> },
    MkForall {
        weight: u32,
        patterns: Seq<usize>,
        sorts: Seq<usize>,
        names: Seq<usize>,
        body: usize,
    },
    GetAstHash(Object),
    IsEqAst { left: usize, right: usize },
    IsEqFuncDecl { left: usize, right: usize },
    MkSolver,
    SolverAssert { solver: usize, term: usize },
    SolverCheck { solver: usize },
    SolverGetModel { solver: usize },
}

impl View for Call {
    type V = CallView;

    open spec fn view(&self) -> CallView {
        match self {
            Call::IncRef(o) => CallView::IncRef(*o),
            Call::DecRef(o) => CallView::DecRef(*o),
            Call::DelContext => CallView::DelContext,
            Call::MkIntSymbol { index } => CallView::MkIntSymbol { index: *index },
            Call::MkFuncDecl { name, domain, range } => CallView::MkFuncDecl {
                name: *name,
                domain: domain@,
                range: *range,
            },
            Call::MkFreshFuncDecl { prefix, domain, range } => CallView::MkFreshFuncDecl {
                prefix: prefix@,
                domain: domain@,
                range: *range,
            },
            Call::MkApp { func, args } => CallView::MkApp { func: *func, args: args@ },
            Call::GetDomainSize { func } => CallView::GetDomainSize { func: *func },
            Call::GetDomain { func, index } => CallView::GetDomain { func: *func, index: *index },
            Call::GetRange { func } => CallView::GetRange { func: *func },
            Call::MkBound { index, sort } => CallView::MkBound { index: *index, sort: *sort },
            Call::MkEq { left, right } => CallView::MkEq { left: *left, right: *right },
            Call::MkPattern { terms } => CallView::MkPattern { terms: terms@ },
            Call::MkForall { weight, patterns, sorts, names, body } => CallView::MkForall {
                weight: *weight,
                patterns: patterns@,
                sorts: sorts@,
                names: names@,
                body: *body,
            },
            Call::GetAstHash(o) => CallView::GetAstHash(*o),
            Call::IsEqAst { left, right } => CallView::IsEqAst { left: *left, right: *right },
            Call::IsEqFuncDecl { left, right } => CallView::IsEqFuncDecl {
                left: *left,
                right: *right,
            },
            Call::MkSolver => CallView::MkSolver,
            Call::SolverAssert { solver, term } => CallView::SolverAssert {
                solver: *solver,
                term: *term,
            },
            Call::SolverCheck { solver } => CallView::SolverCheck { solver: *solver },
            Call::SolverGetModel { solver } => CallView::SolverGetModel { solver: *solver },
        }
    }
}

/// A [`Call`] together with the environment it is to be made in.
#[derive(Debug, Clone, PartialEq, Eq)]
pub struct Request {
    pub ctx: usize,
    pub call: Call,
}

/// What a [`Request`] says.
#[verifier::ext_equal]
pub struct RequestView {
    pub ctx: usize,
    pub call: CallView,
}

impl View for Request {
    type V = RequestView;

    open spec fn view(&self) -> RequestView {
        RequestView { ctx: self.ctx, call: self.call@ }
    }
}

/// What every wrapper stands for: a handle and the environment that owns it.
pub struct Handle {
    pub ctx: usize,
    pub raw: usize,
}

/// What comes of wrapping the handle `raw` that the engine returned in the
/// environment `ctx`: the null handle is the engine's way of refusing, and
/// is the only handle that is not wrapped.
pub open spec fn wrapped(ctx: usize, raw: usize) -> Result<Handle, Error> {
    if raw == 0 {
        Err(Error::InvalidHandle)
    } else {
        Ok(Handle { ctx, raw })
    }
}

} // verus!
