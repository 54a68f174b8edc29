//! A batch of rows: one column for each column of a schema, the number of
//! rows that count, and the rows among them that are active.

use vstd::prelude::*;
use crate::codec::Scalar;
use crate::common::types::{lemma_size_bound, Ty};
use crate::constant::VECTOR_SIZE;
use crate::rows::minipage::MiniPage;

verus! {

/// Position of a column in a page.
pub type PageId = usize;

/// A batch of rows.
#[derive(Debug)]
pub struct Page {
    minipages: Vec<MiniPage>,
    value_count: usize,
    selection: Option<Vec<usize>>,
}

/// Whether every entry of a selection vector is a row below `value_count`.
pub open spec fn selection_valid(selection: Option<Seq<usize>>, value_count: nat) -> bool {
    match selection {
        Some(s) => forall|i: int| 0 <= i < s.len() ==> s[i] < value_count,
        None => true,
    }
}

/// Whether the columns have the widths of the types, one for one.
pub open spec fn columns_match(columns: Seq<MiniPage>, types: Seq<Ty>) -> bool {
    &&& columns.len() == types.len()
    &&& forall|i: int|
        0 <= i < columns.len() ==> types[i]@.sized() && (#[trigger] columns[i]).spec_width()
            == types[i]@.size_of()
}

impl Page {
    /// The columns, in the order of the schema.
    pub closed spec fn columns(&self) -> Seq<MiniPage> {
        self.minipages@
    }

    /// Number of rows that count.
    pub closed spec fn rows(&self) -> nat {
        self.value_count as nat
    }

    /// The active rows, where some rows were dropped.
    pub closed spec fn active(&self) -> Option<Seq<usize>> {
        match self.selection {
            Some(s) => Some(s@),
            None => None,
        }
    }

    /// What holds of every page: no more rows count than a column holds,
    /// every active row counts, and every column is well formed.
    pub open spec fn wf(&self) -> bool {
        &&& self.rows() <= VECTOR_SIZE
        &&& selection_valid(self.active(), self.rows())
        &&& forall|i: int| 0 <= i < self.columns().len() ==> (#[trigger] self.columns()[i]).wf()
    }

    /// The page of the given columns, of which `value_count` rows count and
    /// all of those are active.
    pub fn new(minipages: Vec<MiniPage>, value_count: usize) -> (page: Page)
        requires
            value_count <= VECTOR_SIZE,
            forall|i: int| 0 <= i < minipages@.len() ==> (#[trigger] minipages@[i]).wf(),
        ensures
            page.wf(),
            page.columns() == minipages@,
            page.rows() == value_count,
            page.active() is None,
    {
        Page { minipages, value_count, selection: None }
    }

    /// The column at position `idx`.
    pub fn minipage(&self, idx: PageId) -> (column: &MiniPage)
        requires
            idx < self.columns().len(),
        ensures
            *column == self.columns()[idx as int],
    {
        &self.minipages[idx]
    }

    /// Number of columns.
    pub fn minipage_num(&self) -> (n: usize)
        ensures
            n == self.columns().len(),
    {
        self.minipages.len()
    }

    /// Number of rows that count.
    pub fn value_count(&self) -> (n: usize)
        ensures
            n == self.rows(),
    {
        self.value_count
    }

    /// The active rows, where some rows were dropped.
    pub fn selection(&self) -> (sel: Option<&[usize]>)
        ensures
            match sel {
                Some(s) => self.active() == Some(s@),
                None => self.active() is None,
            },
    {
        match &self.selection {
            Some(s) => Some(s.as_slice()),
            None => None,
        }
    }

    /// Makes `sel` the active rows.
    pub fn set_selection(&mut self, sel: Vec<usize>)
        requires
            old(self).wf(),
            selection_valid(Some(sel@), old(self).rows()),
        ensures
            final(self).wf(),
            final(self).columns() == old(self).columns(),
            final(self).rows() == old(self).rows(),
            final(self).active() == Some(sel@),
    {
        self.selection = Some(sel);
        assert(self.columns() == old(self).columns());
    }

    /// Makes every row that counts active.
    pub fn clear_selection(&mut self)
        requires
            old(self).wf(),
        ensures
            final(self).wf(),
            final(self).columns() == old(self).columns(),
            final(self).rows() == old(self).rows(),
            final(self).active() is None,
    {
        self.selection = None;
        assert(self.columns() == old(self).columns());
    }
}

/// Page builder that owns the buffers of the page it builds, and uses them
/// again for the next page.
#[derive(Debug)]
pub struct PageBuilder {
    page: Page,
}

/// The builder of pages that own their buffers.
pub type OwnedPageBuilder = PageBuilder;

impl PageBuilder {
    /// The page under construction.
    pub closed spec fn page(&self) -> Page {
        self.page
    }

    /// What holds of every builder: its page is well formed.
    pub open spec fn wf(&self) -> bool {
        self.page().wf()
    }

    /// A builder of pages with one column for each of `types`, all zeros, of
    /// which no row counts yet.
    pub fn new(types: &Vec<Ty>) -> (builder: PageBuilder)
        requires
            forall|i: int| 0 <= i < types@.len() ==> (#[trigger] types@[i])@.sized(),
        ensures
            builder.wf(),
            columns_match(builder.page().columns(), types@),
            builder.page().rows() == 0,
            builder.page().active() is None,
            forall|i: int|
                0 <= i < types@.len() ==> (#[trigger] builder.page().columns()[i]).bytes()
                    == Seq::new((types@[i]@.size_of() * VECTOR_SIZE) as nat, |k: int| 0u8),
    {
        let mut minipages: Vec<MiniPage> = Vec::new();
        let mut i: usize = 0;
        while i < types.len()
            invariant
                i <= types@.len(),
                minipages@.len() == i,
                forall|j: int| 0 <= j < types@.len() ==> (#[trigger] types@[j])@.sized(),
                forall|j: int|
                    0 <= j < i ==> {
                        &&& (#[trigger] minipages@[j]).wf()
                        &&& minipages@[j].spec_width() == types@[j]@.size_of()
                        &&& minipages@[j].bytes() == Seq::new(
                            (types@[j]@.size_of() * VECTOR_SIZE) as nat,
                            |k: int| 0u8,
                        )
                    },
            decreases types@.len() - i,
        {
            assert(types@[i as int]@.sized());
            proof {
                lemma_size_bound(types@[i as int]@);
            }
            let width: u32 = types[i].size_of();
            minipages.push(MiniPage::new(width as usize));
            i = i + 1;
        }
        PageBuilder { page: Page::new(minipages, 0) }
    }

    /// Number of columns.
    pub fn column_num(&self) -> (n: usize)
        ensures
            n == self.page().columns().len(),
    {
        self.page.minipage_num()
    }

    /// Bytes of one value of column `col`.
    pub fn column_width(&self, col: PageId) -> (w: usize)
        requires
            col < self.page().columns().len(),
        ensures
            w == self.page().columns()[col as int].spec_width(),
    {
        self.page.minipages[col].width()
    }

    /// Writes `v` at row `row` of column `col`. Every other row and column
    /// stays as it is.
    pub fn write<T: Scalar>(&mut self, col: PageId, row: usize, v: T)
        requires
            old(self).wf(),
            col < old(self).page().columns().len(),
            old(self).page().columns()[col as int].spec_width() == T::width(),
            row < VECTOR_SIZE,
        ensures
            final(self).wf(),
            final(self).page().rows() == old(self).page().rows(),
            final(self).page().active() == old(self).page().active(),
            final(self).page().columns().len() == old(self).page().columns().len(),
            forall|i: int|
                0 <= i < old(self).page().columns().len() && i != col
                    ==> final(self).page().columns()[i] == old(self).page().columns()[i],
            final(self).page().columns()[col as int].spec_width() == T::width(),
            final(self).page().columns()[col as int].values::<T>()
                == old(self).page().columns()[col as int].values::<T>().update(row as int, v),
    {
        self.page.minipages[col].put::<T>(row, v);
    }

    /// Makes column `col` hold what `src`, a column of the same width, holds.
    /// Every other column stays as it is.
    pub fn set_column(&mut self, col: PageId, src: &MiniPage)
        requires
            old(self).wf(),
            src.wf(),
            col < old(self).page().columns().len(),
            old(self).page().columns()[col as int].spec_width() == src.spec_width(),
        ensures
            final(self).wf(),
            final(self).page().rows() == old(self).page().rows(),
            final(self).page().active() == old(self).page().active(),
            final(self).page().columns().len() == old(self).page().columns().len(),
            forall|i: int|
                0 <= i < old(self).page().columns().len() && i != col
                    ==> final(self).page().columns()[i] == old(self).page().columns()[i],
            final(self).page().columns()[col as int].spec_width() == src.spec_width(),
            final(self).page().columns()[col as int].bytes() == src.bytes(),
    {
        self.page.minipages[col].copy_from(src);
    }

    /// Lets the first `value_count` rows count, all of them active, and hands
    /// out the page.
    pub fn build(&mut self, value_count: usize) -> (page: &Page)
        requires
            old(self).wf(),
            value_count <= VECTOR_SIZE,
        ensures
            final(self).wf(),
            *page == final(self).page(),
            page.columns() == old(self).page().columns(),
            page.rows() == value_count,
            page.active() is None,
    {
        self.page.value_count = value_count;
        self.page.selection = None;
        assert(self.page.columns() == old(self).page.columns());
        &self.page
    }

    /// Starts the next page in the same buffers: no row counts, and the
    /// columns hold what they held.
    pub fn reset(&mut self)
        requires
            old(self).wf(),
        ensures
            final(self).wf(),
            final(self).page().columns() == old(self).page().columns(),
            final(self).page().rows() == 0,
            final(self).page().active() is None,
    {
        self.page.value_count = 0;
        self.page.selection = None;
        assert(self.page.columns() == old(self).page.columns());
    }
}

} // verus!
