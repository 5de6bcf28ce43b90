//! The scalar arithmetic engine.
//!
//! The solver's cell values are IEEE-754 binary64 bit patterns held as
//! `u64`. Comparing and classifying such values is integer logic and lives
//! in `bits`; the five arithmetic operations (add, sub, mul, div, sqrt)
//! cannot be computed here, so the caller supplies them as one closure,
//! dispatched on an operation selector, together with a ghost model of that
//! closure. A well-formed engine (`FloatOps::wf`) is one whose closure is
//! total and agrees with its model; every numeric contract in this crate
//! then pins its result exactly as a composition of the model.
//!
//! The caller promises well-formedness: a closure that applies the machine's
//! binary64 operations and maps every NaN result to one fixed bit pattern is
//! a deterministic function of its operands and has itself as a model.

use vstd::prelude::*;

verus! {

/// Selector for addition.
pub const OP_ADD: u8 = 0;

/// Selector for subtraction.
pub const OP_SUB: u8 = 1;

/// Selector for multiplication.
pub const OP_MUL: u8 = 2;

/// Selector for division.
pub const OP_DIV: u8 = 3;

/// Selector for the square root; the second operand is ignored and passed
/// as zero.
pub const OP_SQRT: u8 = 4;

/// The ghost meaning of a scalar closure: a mathematical function from an
/// operation selector and two operand bit patterns to a result bit pattern.
pub type ScalarModel = spec_fn(u8, u64, u64) -> u64;

/// The model's addition.
pub open spec fn s_add(m: ScalarModel, a: u64, b: u64) -> u64 {
    m(OP_ADD, a, b)
}

/// The model's subtraction.
pub open spec fn s_sub(m: ScalarModel, a: u64, b: u64) -> u64 {
    m(OP_SUB, a, b)
}

/// The model's multiplication.
pub open spec fn s_mul(m: ScalarModel, a: u64, b: u64) -> u64 {
    m(OP_MUL, a, b)
}

/// The model's division.
pub open spec fn s_div(m: ScalarModel, a: u64, b: u64) -> u64 {
    m(OP_DIV, a, b)
}

/// The model's square root.
pub open spec fn s_sqrt(m: ScalarModel, a: u64) -> u64 {
    m(OP_SQRT, a, 0)
}

/// A scalar arithmetic engine: one closure dispatching on the `OP_*`
/// selectors, and the ghost model it computes.
pub struct FloatOps<F> where F: Fn(u8, u64, u64) -> u64 {
    /// The closure performing the arithmetic.
    pub op: F,
    /// The mathematical function the closure computes.
    pub model: Ghost<ScalarModel>,
}

impl<F> FloatOps<F> where F: Fn(u8, u64, u64) -> u64 {
    /// The ghost model of this engine.
    pub open spec fn m(self) -> ScalarModel {
        self.model@
    }

    /// The engine is well formed: its closure accepts every input, and
    /// every value the closure can return is the one its model gives.
    pub open spec fn wf(self) -> bool {
        &&& forall|args: (u8, u64, u64)| #[trigger] call_requires(self.op, args)
        &&& forall|args: (u8, u64, u64), r: u64|
            #[trigger] call_ensures(self.op, args, r) ==> r == self.model@(args.0, args.1, args.2)
    }

    /// Wraps a closure; its ghost model is left unconstrained, so nothing
    /// is provable of the engine until `wf` is known. An unverified caller
    /// that supplies a deterministic closure may use the engine directly.
    pub fn new(op: F) -> (r: FloatOps<F>) {
        FloatOps { op, model: Ghost(vstd::pervasive::arbitrary()) }
    }

    /// Binary64 addition through the engine.
    pub fn add(&self, a: u64, b: u64) -> (r: u64)
        requires
            self.wf(),
        ensures
            r == s_add(self.m(), a, b),
    {
        (self.op)(OP_ADD, a, b)
    }

    /// Binary64 subtraction through the engine.
    pub fn sub(&self, a: u64, b: u64) -> (r: u64)
        requires
            self.wf(),
        ensures
            r == s_sub(self.m(), a, b),
    {
        (self.op)(OP_SUB, a, b)
    }

    /// Binary64 multiplication through the engine.
    pub fn mul(&self, a: u64, b: u64) -> (r: u64)
        requires
            self.wf(),
        ensures
            r == s_mul(self.m(), a, b),
    {
        (self.op)(OP_MUL, a, b)
    }

    /// Binary64 division through the engine.
    pub fn div(&self, a: u64, b: u64) -> (r: u64)
        requires
            self.wf(),
        ensures
            r == s_div(self.m(), a, b),
    {
        (self.op)(OP_DIV, a, b)
    }

    /// Binary64 square root through the engine.
    pub fn sqrt(&self, a: u64) -> (r: u64)
        requires
            self.wf(),
        ensures
            r == s_sqrt(self.m(), a),
    {
        (self.op)(OP_SQRT, a, 0)
    }
}

} // verus!
