//! Columns and schemas: what a batch of rows is made of.

use vstd::prelude::*;
use crate::text::str_eq;
use crate::types::{DataTy, DataType, HasDataTy, Ty};

verus! {

/// A named column of one data type.
#[derive(Debug, PartialEq)]
pub struct Column {
    pub name: String,
    pub data_ty: DataTy,
}

impl Clone for Column {
    fn clone(&self) -> (c: Column)
        ensures
            c == *self,
    {
        Column { name: self.name.clone(), data_ty: self.data_ty }
    }
}

impl Column {
    /// The column `name` of the type with the tag `ty`.
    pub fn new(name: &str, ty: Ty) -> (c: Column)
        ensures
            c.name@ == name@,
            c.data_ty == (DataType { ty, len: 0, precision: 0, scale: 0 }),
    {
        Column { name: name.to_owned(), data_ty: DataTy::new(ty) }
    }

    /// The column `name` of the type with the tag `ty` and the length `len`.
    pub fn new_with_len(name: &str, ty: Ty, len: u32) -> (c: Column)
        ensures
            c.name@ == name@,
            c.data_ty == (DataType { ty, len, precision: 0, scale: 0 }),
    {
        Column { name: name.to_owned(), data_ty: DataTy::new_vartype(ty, len) }
    }
}

impl HasDataTy for Column {
    open spec fn spec_data_ty(&self) -> DataType {
        self.data_ty
    }

    fn data_ty(&self) -> (d: &DataType) {
        &self.data_ty
    }
}

/// An ordered sequence of columns. Two columns may have the same name; a
/// lookup by name finds the first.
#[derive(Debug, PartialEq)]
pub struct Schema {
    columns: Vec<Column>,
}

/// Position of the first of `columns` that is called `name`.
pub open spec fn first_named(columns: Seq<Column>, name: Seq<char>) -> Option<int> {
    if exists|i: int| 0 <= i < columns.len() && (#[trigger] columns[i]).name@ == name {
        Some(
            choose|i: int|
                0 <= i < columns.len() && (#[trigger] columns[i]).name@ == name && forall|j: int|
                    0 <= j < i ==> (#[trigger] columns[j]).name@ != name,
        )
    } else {
        None
    }
}

/// `first_named` gives a position at which the name stands and before which it
/// does not, and gives none only where the name stands nowhere.
pub proof fn lemma_first_named(columns: Seq<Column>, name: Seq<char>)
    ensures
        match first_named(columns, name) {
            Some(i) => {
                &&& 0 <= i < columns.len()
                &&& columns[i].name@ == name
                &&& forall|j: int| 0 <= j < i ==> (#[trigger] columns[j]).name@ != name
            },
            None => forall|j: int| 0 <= j < columns.len() ==> (#[trigger] columns[j]).name@ != name,
        },
{
    if exists|i: int| 0 <= i < columns.len() && (#[trigger] columns[i]).name@ == name {
        let w = choose|i: int| 0 <= i < columns.len() && (#[trigger] columns[i]).name@ == name;
        lemma_least_named(columns, name, w);
    }
}

/// Below a position that holds the name there is a first one that does.
proof fn lemma_least_named(columns: Seq<Column>, name: Seq<char>, w: int)
    requires
        0 <= w < columns.len(),
        columns[w].name@ == name,
    ensures
        exists|i: int|
            0 <= i < columns.len() && (#[trigger] columns[i]).name@ == name && forall|j: int|
                0 <= j < i ==> (#[trigger] columns[j]).name@ != name,
    decreases w,
{
    if exists|j: int| 0 <= j < w && (#[trigger] columns[j]).name@ == name {
        let j = choose|j: int| 0 <= j < w && (#[trigger] columns[j]).name@ == name;
        lemma_least_named(columns, name, j);
    } else {
        assert(0 <= w < columns.len() && columns[w].name@ == name && forall|j: int|
            0 <= j < w ==> (#[trigger] columns[j]).name@ != name);
    }
}

impl View for Schema {
    type V = Seq<Column>;

    closed spec fn view(&self) -> Seq<Column> {
        self.columns@
    }
}

impl Schema {
    /// The schema of the given columns, in their order.
    pub fn new(columns: Vec<Column>) -> (s: Schema)
        ensures
            s@ == columns@,
    {
        Schema { columns }
    }

    /// Number of columns.
    pub fn size(&self) -> (n: usize)
        ensures
            n == self@.len(),
    {
        self.columns.len()
    }

    /// Appends the column `c`.
    pub fn add(&mut self, c: Column)
        ensures
            final(self)@ == old(self)@.push(c),
    {
        self.columns.push(c);
    }

    /// Appends a column `name` of the type with the tag `ty`.
    pub fn add_directly(&mut self, name: String, ty: Ty)
        ensures
            final(self)@ == old(self)@.push(
                Column { name, data_ty: DataType { ty, len: 0, precision: 0, scale: 0 } },
            ),
    {
        self.columns.push(Column { name, data_ty: DataTy::new(ty) });
    }

    /// Position of the first column called `name`.
    pub fn column_id(&self, name: &str) -> (r: Option<usize>)
        ensures
            match r {
                Some(i) => first_named(self@, name@) == Some(i as int),
                None => first_named(self@, name@) is None,
            },
    {
        proof {
            lemma_first_named(self@, name@);
        }
        let mut i: usize = 0;
        while i < self.columns.len()
            invariant
                i <= self.columns@.len(),
                forall|j: int| 0 <= j < i ==> (#[trigger] self.columns@[j]).name@ != name@,
            decreases self.columns@.len() - i,
        {
            if str_eq(self.columns[i].name.as_str(), name) {
                return Some(i);
            }
            i = i + 1;
        }
        None
    }

    /// The column at position `idx`.
    pub fn column(&self, idx: usize) -> (c: &Column)
        requires
            idx < self@.len(),
        ensures
            *c == self@[idx as int],
    {
        &self.columns[idx]
    }

    /// The column at position `idx`.
    pub fn get(&self, idx: usize) -> (c: &Column)
        requires
            idx < self@.len(),
        ensures
            *c == self@[idx as int],
    {
        self.column(idx)
    }

    /// The columns, in their order.
    pub fn columns(&self) -> (cs: &Vec<Column>)
        ensures
            cs@ == self@,
    {
        &self.columns
    }

    /// The first column called `name`.
    pub fn get_by_name(&self, name: String) -> (r: Option<&Column>)
        ensures
            match r {
                Some(c) => first_named(self@, name@) is Some && *c == self@[first_named(
                    self@,
                    name@,
                )->0],
                None => first_named(self@, name@) is None,
            },
    {
        proof {
            lemma_first_named(self@, name@);
        }
        match self.column_id(name.as_str()) {
            Some(i) => Some(&self.columns[i]),
            None => None,
        }
    }
}

} // verus!
