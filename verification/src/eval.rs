//! Evaluating expressions over batches: the numbers and the kernels, and
//! what an evaluator of a bound expression offers.

use vstd::prelude::*;
use crate::err::{TResult, Void};
use crate::plan::expr::Expr;
use crate::rows::minipage::MiniPage;
use crate::rows::page::Page;
use crate::schema::Schema;
use crate::types::HasDataTy;

pub mod number;
pub mod primitives;

verus! {

/// What every evaluator of an expression offers.
pub trait Eval: HasDataTy {
    /// Binds the expression to the columns of `schema`.
    fn bind(&mut self, schema: &Schema) -> Void;

    /// Whether the expression is a constant.
    fn is_const(&self) -> bool;
}

/// Evaluator of an expression that has a value in every row.
pub trait MapEval: Eval {
    /// The column of the values on `rows`.
    fn eval<'p>(&'p mut self, rows: &'p Page) -> (r: TResult<&'p MiniPage>)
        requires
            rows.wf(),
    ;
}

/// Evaluator of a predicate: it makes the rows at which the predicate holds
/// the active rows.
pub trait FilterEval: Eval {
    fn filter(&mut self, rows: &mut Page) -> Void
        requires
            old(rows).wf(),
    ;
}

/// Compiler of expressions to evaluators of values.
pub trait MapEvalCompiler {
    /// The evaluators that the compiler makes.
    type Evaluator: MapEval;

    fn compile(expr: &Expr) -> TResult<Self::Evaluator>;
}

/// Compiler of predicates to evaluators that filter.
pub trait FilterEvalCompiler {
    /// The evaluators that the compiler makes.
    type Evaluator: FilterEval;

    fn compile(expr: &Expr) -> TResult<Self::Evaluator>;
}

} // verus!
