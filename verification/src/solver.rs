use crate::ast::Ast;
use crate::context::Context;
use crate::error::Error;
use crate::model::PendingModel;
use crate::protocol::{Call, CallView, Object, Request, RequestView};
use crate::refcount::{release, retain};
use vstd::prelude::*;

verus! {

/// How a satisfiability check ended.
#[derive(Debug, Clone, Copy, PartialEq, Eq, Structural)]
pub enum SolveOutcome {
    /// The assertions cannot all hold.
    UnSat,
    /// The engine could not tell.
    Undefined,
    /// The assertions can all hold.
    Sat,
}

/// Where a solver stands.
#[derive(Debug, Clone, Copy, PartialEq, Eq, Structural)]
pub enum SolverState {
    /// Nothing has been asserted.
    Empty,
    /// Something was asserted since the last check, if there was one.
    Asserted,
    /// The assertions as they stand were checked, with this outcome.
    Checked(SolveOutcome),
}

/// What a solver stands for: its handle, the environment that owns it, and
/// where it stands.
pub struct SolverView {
    pub ctx: usize,
    pub raw: usize,
    pub state: SolverState,
}

/// The outcome that the engine's three-valued verdict stands for: -1 is
/// unsatisfiable, 0 undecided, 1 satisfiable, and no other value is a verdict.
pub open spec fn outcome_of(verdict: i32) -> Option<SolveOutcome> {
    if verdict == -1 {
        Some(SolveOutcome::UnSat)
    } else if verdict == 0 {
        Some(SolveOutcome::Undefined)
    } else if verdict == 1 {
        Some(SolveOutcome::Sat)
    } else {
        None
    }
}

impl SolverView {
    /// The solver after one more assertion.
    pub open spec fn asserted(self) -> SolverView {
        SolverView { state: SolverState::Asserted, ..self }
    }

    /// The solver after `count` assertions.
    pub open spec fn asserted_times(self, count: nat) -> SolverView
        decreases count,
    {
        if count == 0 {
            self
        } else {
            self.asserted_times((count - 1) as nat).asserted()
        }
    }

    /// The solver after a check that ended with `outcome`.
    pub open spec fn checked(self, outcome: SolveOutcome) -> SolverView {
        SolverView { state: SolverState::Checked(outcome), ..self }
    }

    /// Whether the solver has a model to give.
    pub open spec fn has_model(self) -> bool {
        self.state == SolverState::Checked(SolveOutcome::Sat)
    }
}

/// The three verdicts stand for three different outcomes, so that what a
/// check returns tells unknown from unsatisfiable.
pub proof fn law_outcomes_are_told_apart(first: i32, second: i32)
    requires
        outcome_of(first) is Some,
        outcome_of(second) is Some,
    ensures
        outcome_of(first) == outcome_of(second) <==> first == second,
        outcome_of(-1i32) == Some(SolveOutcome::UnSat),
        outcome_of(0i32) == Some(SolveOutcome::Undefined),
        outcome_of(1i32) == Some(SolveOutcome::Sat),
{
}

/// After any number of assertions and a check, the solver has a model
/// exactly if the engine's verdict was satisfiable; and one more assertion
/// takes the model away again.
pub proof fn law_model_after_sat_only(solver: SolverView, count: nat, verdict: i32)
    requires
        outcome_of(verdict) is Some,
    ensures
        solver.asserted_times(count).checked(outcome_of(verdict)->Some_0).has_model() <==> verdict
            == 1,
        !solver.asserted_times(count).checked(outcome_of(verdict)->Some_0).asserted().has_model(),
        count > 0 ==> !solver.asserted_times(count).has_model(),
{
}

impl SolveOutcome {
    /// Reads the engine's verdict; `None` for a value that is no verdict.
    pub fn from_lbool(verdict: i32) -> (r: Option<SolveOutcome>)
        ensures
            r == outcome_of(verdict),
    {
        if verdict == -1 {
            Some(SolveOutcome::UnSat)
        } else if verdict == 0 {
            Some(SolveOutcome::Undefined)
        } else if verdict == 1 {
            Some(SolveOutcome::Sat)
        } else {
            None
        }
    }
}

/// A solver: it gathers assertions and has the engine check them.
pub struct Solver<'ctx> {
    ctx: &'ctx Context,
    z3_slv: usize,
    state: SolverState,
}

impl<'ctx> View for Solver<'ctx> {
    type V = SolverView;

    closed spec fn view(&self) -> SolverView {
        SolverView { ctx: self.ctx@, raw: self.z3_slv, state: self.state }
    }
}

/// A solver the engine has been asked for: once the engine has answered, the
/// answer is wrapped in the environment the request was made in.
pub struct PendingSolver<'ctx> {
    ctx: &'ctx Context,
}

impl<'ctx> View for PendingSolver<'ctx> {
    type V = usize;

    closed spec fn view(&self) -> usize {
        self.ctx@
    }
}

impl<'ctx> PendingSolver<'ctx> {
    /// Takes the engine's answer to the request and wraps it as
    /// [`Solver::new`] does: the null handle, with which the engine refuses,
    /// is an error; any other comes wrapped, with nothing asserted and with
    /// the one request that retains it.
    pub fn resume(self, z3_slv: usize) -> (r: Result<(Solver<'ctx>, Request), Error>)
        ensures
            z3_slv == 0 ==> r is Err && r->Err_0 == Error::InvalidHandle,
            z3_slv != 0 ==> r is Ok && r->Ok_0.0@ == (SolverView {
                ctx: self@,
                raw: z3_slv,
                state: SolverState::Empty,
            }) && r->Ok_0.1@ == retain(self@, Object::Solver(z3_slv)),
    {
        Solver::new(self.ctx, z3_slv)
    }
}

impl<'ctx> Solver<'ctx> {
    #[verifier::type_invariant]
    spec fn valid(&self) -> bool {
        self.z3_slv != 0
    }

    /// The engine object whose count this wrapper holds one unit of.
    pub open spec fn object(&self) -> Object {
        Object::Solver(self@.raw)
    }

    /// Makes a solver in `ctx`: the request that does so, and the solver
    /// that waits for the engine's answer.
    pub fn create(ctx: &'ctx Context) -> (r: (PendingSolver<'ctx>, Request))
        ensures
            r.0@ == ctx@,
            r.1@ == (RequestView { ctx: ctx@, call: CallView::MkSolver }),
    {
        (PendingSolver { ctx }, Request { ctx: ctx.raw(), call: Call::MkSolver })
    }

    /// Wraps a solver handle the engine returned. The null handle is refused;
    /// for any other the wrapper, with nothing asserted, comes with the one
    /// request that retains it.
    pub fn new(ctx: &'ctx Context, z3_slv: usize) -> (r: Result<(Solver<'ctx>, Request), Error>)
        ensures
            z3_slv == 0 ==> r is Err && r->Err_0 == Error::InvalidHandle,
            z3_slv != 0 ==> r is Ok && r->Ok_0.0@ == (SolverView {
                ctx: ctx@,
                raw: z3_slv,
                state: SolverState::Empty,
            }) && r->Ok_0.1@ == retain(ctx@, Object::Solver(z3_slv)),
    {
        if z3_slv == 0 {
            return Err(Error::InvalidHandle);
        }
        let request = Request { ctx: ctx.raw(), call: Call::IncRef(Object::Solver(z3_slv)) };
        Ok((Solver { ctx, z3_slv, state: SolverState::Empty }, request))
    }

    /// Adds `ast` to what the solver holds: the request that asserts it.
    /// Whatever an earlier check found no longer stands.
    pub fn assert_term(&mut self, ast: &Ast<'ctx>) -> (r: Request)
        ensures
            final(self)@ == old(self)@.asserted(),
            r@ == (RequestView {
                ctx: old(self)@.ctx,
                call: CallView::SolverAssert { solver: old(self)@.raw, term: ast@.raw },
            }),
    {
        proof {
            use_type_invariant(&*self);
        }
        self.state = SolverState::Asserted;
        Request {
            ctx: self.ctx.raw(),
            call: Call::SolverAssert { solver: self.z3_slv, term: ast.raw() },
        }
    }

    /// The request that has the engine check the assertions. Its verdict is
    /// for [`Solver::raw_check`] or [`Solver::check`].
    pub fn check_request(&self) -> (r: Request)
        ensures
            r@ == (RequestView {
                ctx: self@.ctx,
                call: CallView::SolverCheck { solver: self@.raw },
            }),
    {
        Request { ctx: self.ctx.raw(), call: Call::SolverCheck { solver: self.z3_slv } }
    }

    /// Takes the engine's verdict on the assertions as they stand and
    /// records the outcome, which replaces that of any earlier check.
    ///
    /// The engine promises one of three verdicts; a caller that got anything
    /// else has no outcome to record and must not go on.
    pub fn raw_check(&mut self, verdict: i32) -> (r: SolveOutcome)
        requires
            outcome_of(verdict) is Some,
        ensures
            outcome_of(verdict) == Some(r),
            final(self)@ == old(self)@.checked(r),
    {
        proof {
            use_type_invariant(&*self);
        }
        let outcome = if verdict == -1 {
            SolveOutcome::UnSat
        } else if verdict == 0 {
            SolveOutcome::Undefined
        } else {
            SolveOutcome::Sat
        };
        self.state = SolverState::Checked(outcome);
        outcome
    }

    /// The outcome of a check: takes the engine's verdict on the assertions
    /// as they stand, records the outcome as [`Solver::raw_check`] does, and
    /// returns it, one of satisfiable, unsatisfiable and unknown, each told
    /// apart from the other two.
    pub fn check(&mut self, verdict: i32) -> (r: SolveOutcome)
        requires
            outcome_of(verdict) is Some,
        ensures
            outcome_of(verdict) == Some(r),
            final(self)@ == old(self)@.checked(r),
    {
        self.raw_check(verdict)
    }

    /// Asks for the model of the last check, which there is only if that
    /// check ended satisfiable and nothing was asserted since: the request
    /// for it, and the model that waits for the engine's answer. In any
    /// other state nothing is asked of the engine.
    pub fn get_model(&self) -> (r: Result<(PendingModel<'ctx>, Request), Error>)
        ensures
            self@.has_model() ==> r is Ok && r->Ok_0.0@ == self@.ctx && r->Ok_0.1@ == (
            RequestView { ctx: self@.ctx, call: CallView::SolverGetModel { solver: self@.raw } }),
            !self@.has_model() ==> r is Err && r->Err_0 == Error::ModelUnavailable,
    {
        match self.state {
            SolverState::Checked(SolveOutcome::Sat) => {
                let call = Call::SolverGetModel { solver: self.z3_slv };
                Ok((PendingModel::new(self.ctx), Request { ctx: self.ctx.raw(), call }))
            },
            _ => Err(Error::ModelUnavailable),
        }
    }

    /// Where the solver stands.
    pub fn state(&self) -> (s: SolverState)
        ensures
            s == self@.state,
    {
        self.state
    }

    /// The handle, never null.
    pub fn raw(&self) -> (h: usize)
        ensures
            h == self@.raw,
            h != 0,
    {
        proof {
            use_type_invariant(self);
        }
        self.z3_slv
    }

    /// The environment that owns the solver.
    pub fn context(&self) -> (c: &'ctx Context)
        ensures
            c@ == self@.ctx,
    {
        self.ctx
    }

    /// Gives the wrapper up: the one request that releases what `new` retained.
    pub fn release(self) -> (r: Request)
        ensures
            r@ == release(self@.ctx, self.object()),
    {
        Request { ctx: self.ctx.raw(), call: Call::DecRef(Object::Solver(self.z3_slv)) }
    }
}

} // verus!
