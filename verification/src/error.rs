use vstd::prelude::*;

verus! {

/// Why an operation of the binding was refused.
#[derive(Debug, Clone, Copy, PartialEq, Eq, Structural)]
pub enum Error {
    /// The engine answered with the null handle where an object was due.
    InvalidHandle,
    /// A declaration of `arity` arguments has no argument at position `index`.
    Arity { arity: u32, index: usize },
    /// A model was asked of a solver whose last check did not end satisfiable.
    ModelUnavailable,
}

} // verus!
