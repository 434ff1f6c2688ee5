//! The decision core of a binding to the Z3 theorem prover.
//!
//! Z3 hands out opaque handles, counts references by hand and is only partly
//! thread-safe. This crate holds every rule the binding follows and none of
//! the foreign calls: each operation yields the [`Request`]s that a driver
//! must perform, one at a time and under a single process-wide lock, and
//! takes the handles the engine answers with. A handle is the address the
//! engine returned, carried as a plain `usize`; zero is the null handle.

pub mod ast;
pub mod balance;
pub mod config;
pub mod context;
pub mod error;
pub mod function;
pub mod model;
pub mod optimize;
pub mod pattern;
pub mod protocol;
pub mod refcount;
pub mod script;
pub mod shape;
pub mod solver;
pub mod sort;
pub mod symbol;
pub mod synthesis;

pub use ast::{Ast, PendingAst};
pub use config::Config;
pub use context::Context;
pub use error::Error;
pub use function::{Function, PendingFunction};
pub use model::{Model, PendingModel};
pub use optimize::Optimize;
pub use pattern::Pattern;
pub use protocol::{Call, Object, Request};
pub use solver::{PendingSolver, SolveOutcome, Solver, SolverState};
pub use sort::Sort;
pub use symbol::Symbol;
pub use synthesis::{AxiomStart, AxiomStep, AxiomSynthesis};
