//! The driver of a pipeline: it owns the root operator and pulls the pages
//! through it.

use vstd::prelude::*;
use crate::err::TResult;
use crate::exec::{Executor, ExecutorFactory};
use crate::rows::page::Page;

verus! {

/// What a driver runs in.
pub struct DriverContext;

/// Where the input of a task comes from.
pub struct TaskSource;

/// Driver of one pipeline.
pub struct Driver<'a, E: Executor> {
    ctx: &'a DriverContext,
    root_exec: E,
}

impl<'a, E: Executor> Driver<'a, E> {
    /// What the driver runs in.
    pub closed spec fn context(&self) -> &DriverContext {
        self.ctx
    }

    /// The root operator.
    pub closed spec fn root(&self) -> E {
        self.root_exec
    }

    /// Tells the driver of a new source. It does not use it yet.
    pub fn update_source(&self, source: TaskSource) {
    }

    /// The next page of the root operator: the driver asks the root operator
    /// once for its next page and hands on what it answers, a page or an
    /// error. Nothing else of the driver changes.
    pub fn process(&mut self) -> (handed: TResult<&Page>)
        ensures
            old(self).root().hands_on(&final(self).root(), handed),
            final(self).context() == old(self).context(),
    {
        self.root_exec.next()
    }

    /// Ends the run. The operators are released with the driver.
    pub fn close(&mut self) {
    }
}

/// Maker of drivers for one pipeline.
pub struct DriverFactory<F: ExecutorFactory> {
    pub is_input: bool,
    pub is_output: bool,
    pub source_ids: Vec<String>,
    pub factory: F,
}

impl<F: ExecutorFactory> DriverFactory<F> {
    /// The maker of drivers whose root operator `factory` makes.
    pub fn new(is_input: bool, is_output: bool, factory: F) -> (df: DriverFactory<F>)
        ensures
            df.is_input == is_input,
            df.is_output == is_output,
            df.source_ids@.len() == 0,
            df.factory == factory,
    {
        DriverFactory { is_input, is_output, source_ids: Vec::new(), factory }
    }

    /// A driver in the context `ctx`, where the factory makes its root
    /// operator: the factory is asked once, for an operator in `ctx`. Where it
    /// makes one, the driver runs in `ctx` and has that operator as its root;
    /// where it makes none, there is no driver.
    pub fn create_driver<'a>(&self, ctx: &'a DriverContext) -> (driver: Option<
        Driver<'a, F::Exec>,
    >)
        ensures
            match driver {
                Some(d) => self.factory.makes(ctx, Some(d.root())) && d.context() == ctx,
                None => self.factory.makes(ctx, None),
            },
    {
        match self.factory.create(ctx) {
            Some(root_exec) => Some(Driver { ctx, root_exec }),
            None => None,
        }
    }
}

} // verus!
