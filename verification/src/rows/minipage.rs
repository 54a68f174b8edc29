//! One column of a batch: a buffer of `VECTOR_SIZE` values of one width, one
//! after the other.

use vstd::prelude::*;
use crate::codec::{lemma_overlay_other, lemma_overlay_read, overlay, Scalar};
use crate::constant::VECTOR_SIZE;

verus! {

/// A fixed-width column: `VECTOR_SIZE` values of `width` bytes each, in one
/// buffer.
#[derive(Debug)]
pub struct MiniPage {
    width: usize,
    data: Vec<u8>,
}

/// The column of fixed-width values.
pub type FMiniPage = MiniPage;

/// The value of type `T` that lies at row `row` in the bytes of a column.
pub open spec fn value_at<T: Scalar>(bytes: Seq<u8>, row: int) -> T {
    T::decode(bytes.subrange(row * T::width(), row * T::width() + T::width()))
}

/// The bytes of a column after `v` was written at row `row`.
pub open spec fn with_value<T: Scalar>(bytes: Seq<u8>, row: int, v: T) -> Seq<u8> {
    overlay(bytes, row * T::width(), v.encode())
}

/// The rows of a column lie side by side: row `j` ends before row `r` begins
/// where `j` is less than `r`.
pub proof fn lemma_rows_apart(j: int, r: int, w: nat)
    requires
        0 <= j < r,
    ensures
        0 <= j * w,
        j * w + w <= r * w,
{
    assert(j * w + w == (j + 1) * w) by (nonlinear_arith);
    assert((j + 1) * w <= r * w) by (nonlinear_arith)
        requires
            j + 1 <= r,
            0 <= w,
    ;
    assert(0 <= j * w) by (nonlinear_arith)
        requires
            0 <= j,
            0 <= w,
    ;
}

/// A row written into a column reads back as the written value, and every
/// other row reads as before.
pub proof fn lemma_with_value<T: Scalar>(bytes: Seq<u8>, row: int, v: T, other: int, rows: int)
    requires
        0 <= row < rows,
        0 <= other < rows,
        bytes.len() == rows * T::width(),
    ensures
        with_value(bytes, row, v).len() == bytes.len(),
        value_at::<T>(with_value(bytes, row, v), other) == if other == row {
            v
        } else {
            value_at::<T>(bytes, other)
        },
{
    let w = T::width();
    T::lemma_round_trip(v);
    lemma_rows_apart(row, rows, w);
    lemma_rows_apart(other, rows, w);
    if row > 0 {
        lemma_rows_apart(0, row, w);
    }
    if other > 0 {
        lemma_rows_apart(0, other, w);
    }
    if other == row {
        lemma_overlay_read(bytes, row * w, v.encode());
    } else {
        if other < row {
            lemma_rows_apart(other, row, w);
        } else {
            lemma_rows_apart(row, other, w);
        }
        lemma_overlay_other(bytes, row * w, v.encode(), other * w, other * w + w);
    }
}

impl MiniPage {
    /// Bytes of one value.
    pub closed spec fn spec_width(&self) -> nat {
        self.width as nat
    }

    /// The bytes of the column, row after row.
    pub closed spec fn bytes(&self) -> Seq<u8> {
        self.data@
    }

    /// The buffer holds `VECTOR_SIZE` values of the column's width.
    pub closed spec fn wf(&self) -> bool {
        self.data@.len() == self.width * VECTOR_SIZE
    }

    /// The value of type `T` at row `row`.
    pub open spec fn value<T: Scalar>(&self, row: int) -> T {
        value_at::<T>(self.bytes(), row)
    }

    /// The values of type `T` of all rows.
    pub open spec fn values<T: Scalar>(&self) -> Seq<T> {
        Seq::new(VECTOR_SIZE as nat, |row: int| self.value::<T>(row))
    }

    /// A well-formed column has `VECTOR_SIZE` times its width in bytes.
    pub proof fn lemma_wf(&self)
        requires
            self.wf(),
        ensures
            self.bytes().len() == self.spec_width() * VECTOR_SIZE,
    {
    }

    /// A column of zeros for values of `width` bytes.
    pub fn new(width: usize) -> (page: MiniPage)
        requires
            width * VECTOR_SIZE <= usize::MAX,
        ensures
            page.wf(),
            page.spec_width() == width,
            page.bytes() == Seq::new((width * VECTOR_SIZE) as nat, |i: int| 0u8),
    {
        let data: Vec<u8> = vec![0u8; width * VECTOR_SIZE];
        assert(data@ =~= Seq::new((width * VECTOR_SIZE) as nat, |i: int| 0u8));
        MiniPage { width, data }
    }

    /// Bytes of one value.
    pub fn width(&self) -> (w: usize)
        ensures
            w == self.spec_width(),
    {
        self.width
    }

    /// The bytes of the column, row after row.
    pub fn as_bytes(&self) -> (b: &Vec<u8>)
        ensures
            b@ == self.bytes(),
    {
        &self.data
    }

    /// The value of type `T` at row `row`.
    pub fn get<T: Scalar>(&self, row: usize) -> (v: T)
        requires
            self.wf(),
            self.spec_width() == T::width(),
            row < VECTOR_SIZE,
        ensures
            v == self.value::<T>(row as int),
    {
        let w: usize = T::size();
        let len: usize = self.data.len();
        proof {
            lemma_rows_apart(row as int, VECTOR_SIZE as int, w as nat);
            assert(VECTOR_SIZE * w == w * VECTOR_SIZE) by (nonlinear_arith);
        }
        T::load(&self.data, row * w)
    }

    /// Writes `v` at row `row`. Every other row reads as before.
    pub fn put<T: Scalar>(&mut self, row: usize, v: T)
        requires
            old(self).wf(),
            old(self).spec_width() == T::width(),
            row < VECTOR_SIZE,
        ensures
            final(self).wf(),
            final(self).spec_width() == old(self).spec_width(),
            final(self).bytes() == with_value(old(self).bytes(), row as int, v),
            final(self).values::<T>() == old(self).values::<T>().update(row as int, v),
    {
        let w: usize = T::size();
        let len: usize = self.data.len();
        proof {
            lemma_rows_apart(row as int, VECTOR_SIZE as int, w as nat);
            assert(VECTOR_SIZE * w == w * VECTOR_SIZE) by (nonlinear_arith);
        }
        v.store(&mut self.data, row * w);
        proof {
            assert forall|r: int| 0 <= r < VECTOR_SIZE implies #[trigger] self.value::<T>(r)
                == old(self).values::<T>().update(row as int, v)[r] by {
                lemma_with_value::<T>(old(self).bytes(), row as int, v, r, VECTOR_SIZE as int);
            }
            assert(self.values::<T>() =~= old(self).values::<T>().update(row as int, v));
        }
    }

    /// Makes the column hold what `src`, a column of the same width, holds.
    pub fn copy_from(&mut self, src: &MiniPage)
        requires
            old(self).wf(),
            src.wf(),
            old(self).spec_width() == src.spec_width(),
        ensures
            final(self).wf(),
            final(self).spec_width() == old(self).spec_width(),
            final(self).bytes() == src.bytes(),
    {
        let n: usize = self.data.len();
        let mut i: usize = 0;
        while i < n
            invariant
                i <= n,
                n == self.data@.len(),
                n == src.data@.len(),
                self.width == old(self).width,
                self.data@.take(i as int) == src.data@.take(i as int),
            decreases n - i,
        {
            self.data[i] = src.data[i];
            proof {
                assert(self.data@.take(i as int + 1) =~= src.data@.take(i as int + 1)) by {
                    assert forall|k: int| 0 <= k < i + 1 implies self.data@[k] == src.data@[k] by {
                        if k < i {
                            assert(self.data@[k] == self.data@.take(i as int)[k]);
                            assert(src.data@[k] == src.data@.take(i as int)[k]);
                        }
                    }
                }
            }
            i = i + 1;
        }
        proof {
            assert(self.data@ =~= self.data@.take(n as int));
            assert(src.data@ =~= src.data@.take(n as int));
        }
    }

    /// Writes `v` at every row.
    pub fn fill<T: Scalar>(&mut self, v: T)
        requires
            old(self).wf(),
            old(self).spec_width() == T::width(),
        ensures
            final(self).wf(),
            final(self).spec_width() == old(self).spec_width(),
            forall|row: int| 0 <= row < VECTOR_SIZE ==> (#[trigger] final(self).value::<T>(row))
                == v,
    {
        let mut i: usize = 0;
        while i < VECTOR_SIZE
            invariant
                i <= VECTOR_SIZE,
                self.wf(),
                self.spec_width() == T::width(),
                self.spec_width() == old(self).spec_width(),
                forall|row: int| 0 <= row < i ==> (#[trigger] self.value::<T>(row)) == v,
            decreases VECTOR_SIZE - i,
        {
            let ghost before = *self;
            self.put::<T>(i, v);
            proof {
                assert forall|row: int| 0 <= row < i + 1 implies (#[trigger] self.value::<T>(row))
                    == v by {
                    assert(self.values::<T>()[row] == self.value::<T>(row));
                    assert(before.values::<T>()[row] == before.value::<T>(row));
                }
            }
            i = i + 1;
        }
    }

    /// A column that holds `values` in its first rows and zeros in the others.
    pub fn from_vec<T: Scalar>(values: &Vec<T>) -> (page: MiniPage)
        requires
            values@.len() <= VECTOR_SIZE,
            T::width() * VECTOR_SIZE <= usize::MAX,
        ensures
            page.wf(),
            page.spec_width() == T::width(),
            forall|row: int|
                0 <= row < values@.len() ==> (#[trigger] page.value::<T>(row)) == values@[row],
            forall|row: int|
                values@.len() <= row < VECTOR_SIZE ==> (#[trigger] page.value::<T>(row))
                    == MiniPage::zeroed::<T>(),
    {
        let mut page = MiniPage::new(T::size());
        let ghost blank = page;
        let n: usize = values.len();
        let mut i: usize = 0;
        while i < n
            invariant
                i <= n,
                n == values@.len(),
                n <= VECTOR_SIZE,
                page.wf(),
                blank.wf(),
                page.spec_width() == T::width(),
                blank.spec_width() == T::width(),
                blank.bytes() == Seq::new((T::width() * VECTOR_SIZE) as nat, |k: int| 0u8),
                forall|row: int| 0 <= row < i ==> (#[trigger] page.value::<T>(row)) == values@[row],
                forall|row: int|
                    i <= row < VECTOR_SIZE ==> (#[trigger] page.value::<T>(row)) == blank.value::<
                        T,
                    >(row),
            decreases n - i,
        {
            let ghost before = page;
            page.put::<T>(i, values[i]);
            proof {
                assert forall|row: int| 0 <= row < VECTOR_SIZE implies (#[trigger] page.value::<T>(
                    row,
                )) == if row == i {
                    values@[i as int]
                } else {
                    before.value::<T>(row)
                } by {
                    assert(page.values::<T>()[row] == page.value::<T>(row));
                    assert(before.values::<T>()[row] == before.value::<T>(row));
                }
            }
            i = i + 1;
        }
        proof {
            assert forall|row: int| values@.len() <= row < VECTOR_SIZE implies (
            #[trigger] page.value::<T>(row)) == MiniPage::zeroed::<T>() by {
                lemma_rows_apart(row, VECTOR_SIZE as int, T::width());
                if row > 0 {
                    lemma_rows_apart(0, row, T::width());
                }
                assert(blank.bytes().subrange(row * T::width(), row * T::width() + T::width())
                    =~= Seq::new(T::width(), |k: int| 0u8));
            }
        }
        page
    }

    /// The value of type `T` whose bytes are all zero.
    pub open spec fn zeroed<T: Scalar>() -> T {
        T::decode(Seq::new(T::width(), |k: int| 0u8))
    }

    /// The values of type `T` in the first `n` rows.
    pub fn to_vec<T: Scalar>(&self, n: usize) -> (out: Vec<T>)
        requires
            self.wf(),
            self.spec_width() == T::width(),
            n <= VECTOR_SIZE,
        ensures
            out@ == self.values::<T>().take(n as int),
    {
        let mut out: Vec<T> = Vec::new();
        let mut i: usize = 0;
        while i < n
            invariant
                i <= n,
                n <= VECTOR_SIZE,
                self.wf(),
                self.spec_width() == T::width(),
                out@ == self.values::<T>().take(i as int),
            decreases n - i,
        {
            out.push(self.get::<T>(i));
            proof {
                assert(out@ =~= self.values::<T>().take(i as int + 1));
            }
            i = i + 1;
        }
        out
    }
}

} // verus!
