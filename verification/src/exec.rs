//! Execution of compiled expressions over pages, and the contracts between
//! the engine and what drives it.
//!
//! Columnar and vectorized processing: an operator takes a page of at most
//! `VECTOR_SIZE` rows and hands on a page.
//!  * An input source needs no input page, and hands on its read buffer where
//!    it can.
//!  * A filter passes the page through and only sets the active rows.
//!  * Every other operator needs both an input and an output page.

use vstd::prelude::*;
use crate::common::plugin::str_views;
use crate::common::types::Ty;
use crate::err::{TResult, Void};
use crate::exec::driver::DriverContext;
use crate::rows::page::{Page, PageBuilder};
use crate::text::str_eq;

pub mod delim_text_scanner;
pub mod driver;
pub mod evaluator;
pub mod processor;
pub mod text_scanner;

verus! {

/// An operator of the pipeline, as its driver sees it. The driver pulls pages
/// through it: it adds input where the operator needs some, and takes the next
/// page, until a page comes of which no row counts.
pub trait Executor {
    /// Makes the operator ready.
    fn init(&mut self) -> Void;

    /// Whether the operator needs a page before it can hand on the next.
    fn need_input(&self) -> bool;

    /// Hands a page to the operator.
    fn add_input(&mut self, page: &Page) -> Void
        requires
            page.wf(),
    ;

    /// Whether `next`, called on this operator, may leave it as `after` and
    /// hand on `handed`. Each operator says for itself what its next page is;
    /// of one that says nothing, nothing is known.
    open spec fn hands_on(&self, after: &Self, handed: TResult<&Page>) -> bool {
        true
    }

    /// The next page. It stays as it is until the next call of a method that
    /// takes the operator mutably. A page of which no row counts ends the
    /// stream.
    fn next(&mut self) -> (handed: TResult<&Page>)
        ensures
            old(self).hands_on(final(self), handed),
    ;

    /// Releases what the operator holds.
    fn close(&mut self) -> Void;
}

/// What operators are made in.
pub struct ExecutionContext;

/// Runner of the operators of a plan.
pub struct ExecutorRunner;

/// Maker of the sources that rows are read from.
pub trait InputSourceProvider {
    /// The sources that the provider makes.
    type Source: Executor;

    /// Makes a source.
    fn create(&self) -> Self::Source;
}

/// Maker of operators.
pub trait ExecutorFactory {
    /// The operators that the factory makes.
    type Exec: Executor;

    /// Whether `create` may answer `made` in the context `ctx`. Each factory
    /// says for itself what it makes; of one that says nothing, nothing is
    /// known.
    open spec fn makes(&self, ctx: &DriverContext, made: Option<Self::Exec>) -> bool {
        true
    }

    /// Makes an operator in the context `ctx`, where it can.
    fn create(&self, ctx: &DriverContext) -> (made: Option<Self::Exec>)
        ensures
            self.makes(ctx, made),
    ;

    /// The types of the columns of the pages that the operators hand on.
    fn types(&self) -> &Vec<Ty>;
}

/// What works on one page and adds its results, column by column, to the page
/// under construction.
pub trait Processor {
    /// What holds of a processor that was built.
    spec fn spec_wf(&self) -> bool;

    fn process(&mut self, input: &Page, builder: &mut PageBuilder) -> (r: Void)
        requires
            old(self).spec_wf(),
            input.wf(),
            old(builder).wf(),
        ensures
            final(self).spec_wf(),
            final(builder).wf(),
    ;
}

/// A schema by the names and the types of its columns, one name for each
/// type.
pub struct NamedSchema<'a> {
    pub names: &'a Vec<&'a str>,
    pub types: &'a Vec<Ty>,
}

/// The positions, in ascending order, of those of `names` that are among
/// `wanted`.
pub open spec fn ids_of(names: Seq<Seq<char>>, wanted: Seq<Seq<char>>) -> Seq<usize>
    decreases names.len(),
{
    if names.len() == 0 {
        Seq::empty()
    } else if wanted.contains(names.last()) {
        ids_of(names.drop_last(), wanted).push((names.len() - 1) as usize)
    } else {
        ids_of(names.drop_last(), wanted)
    }
}

/// Whether `name` is among `names`.
pub fn contains_name(names: &Vec<&str>, name: &str) -> (b: bool)
    ensures
        b == str_views(names@).contains(name@),
{
    let mut i: usize = 0;
    while i < names.len()
        invariant
            i <= names@.len(),
            forall|j: int| 0 <= j < i ==> (#[trigger] names@[j])@ != name@,
        decreases names@.len() - i,
    {
        if str_eq(names[i], name) {
            proof {
                assert(str_views(names@)[i as int] == name@);
            }
            return true;
        }
        i = i + 1;
    }
    proof {
        if str_views(names@).contains(name@) {
            let w = str_views(names@).index_of(name@);
            assert(names@[w]@ == name@);
        }
    }
    false
}

impl<'a> NamedSchema<'a> {
    /// The schema of the columns that are called `names` and have the types
    /// `types`, one for one.
    pub fn new(names: &'a Vec<&'a str>, types: &'a Vec<Ty>) -> (schema: NamedSchema<'a>)
        requires
            names@.len() == types@.len(),
        ensures
            schema.names == names,
            schema.types == types,
    {
        NamedSchema { names, types }
    }

    /// The positions, in ascending order, of the columns whose name is among
    /// `names`.
    pub fn find_ids(&self, names: &Vec<&str>) -> (ids: Vec<usize>)
        ensures
            ids@ == ids_of(str_views(self.names@), str_views(names@)),
    {
        let mut ids: Vec<usize> = Vec::new();
        let mut i: usize = 0;
        let ghost own = str_views(self.names@);
        proof {
            assert(own.take(0) =~= Seq::<Seq<char>>::empty());
        }
        while i < self.names.len()
            invariant
                i <= self.names@.len(),
                own == str_views(self.names@),
                ids@ == ids_of(own.take(i as int), str_views(names@)),
            decreases self.names@.len() - i,
        {
            proof {
                assert(own.take(i as int + 1).drop_last() =~= own.take(i as int));
                assert(own.take(i as int + 1).last() == self.names@[i as int]@);
            }
            if contains_name(names, self.names[i]) {
                ids.push(i);
            }
            i = i + 1;
        }
        proof {
            assert(own.take(i as int) =~= own);
        }
        ids
    }
}

} // verus!
