//! Blocks of rows, column by column: a block that borrows its columns, and
//! a block that owns one area for all of them.

use vstd::prelude::*;
use vstd::string::StringSliceAdditionalSpecFns;
use crate::codec::{lemma_overlay_other, lemma_overlay_read, overlay, Scalar};
use crate::constant::{ALIGNED_SIZE, TEXT_SIZE, VECTOR_SIZE};
use crate::memutil::arena::{alloc_step, Arena};
use crate::rows::minipage::{lemma_rows_apart, MiniPage};
use crate::schema::Schema;
use crate::types::{size_of_spec, DataTy, DataType, HasDataTy};

verus! {

/// `size` rounded up to the next multiple of the alignment.
pub open spec fn aligned(size: nat) -> nat {
    ((size + ALIGNED_SIZE - 1) / (ALIGNED_SIZE as int) * ALIGNED_SIZE) as nat
}

/// `size` rounded up to the next multiple of the alignment.
pub fn compute_aligned_size(size: usize) -> (n: usize)
    requires
        size + ALIGNED_SIZE <= usize::MAX,
    ensures
        n == aligned(size as nat),
        size <= n < size + ALIGNED_SIZE,
        n % ALIGNED_SIZE == 0,
{
    (size + ALIGNED_SIZE - 1) / ALIGNED_SIZE * ALIGNED_SIZE
}

/// Bytes that the columns of the widths `widths` take together, each
/// aligned.
pub open spec fn area_size(widths: Seq<u32>) -> nat
    decreases widths.len(),
{
    if widths.len() == 0 {
        0
    } else {
        area_size(widths.drop_last()) + aligned((widths.last() * VECTOR_SIZE) as nat)
    }
}

/// The widths of the columns of a schema.
pub open spec fn widths_of(schema: Schema) -> Seq<u32> {
    Seq::new(schema@.len(), |i: int| size_of_spec(schema@[i].data_ty))
}

/// The area of the columns up to a column lies before the column, and the
/// column lies in the area of all.
pub proof fn lemma_area_size(widths: Seq<u32>, col: int)
    requires
        0 <= col < widths.len(),
    ensures
        area_size(widths.take(col)) + aligned((widths[col] * VECTOR_SIZE) as nat) == area_size(
            widths.take(col + 1),
        ),
        area_size(widths.take(col + 1)) <= area_size(widths),
        widths[col] * VECTOR_SIZE <= aligned((widths[col] * VECTOR_SIZE) as nat),
    decreases widths.len() - col,
{
    assert(widths.take(col + 1).drop_last() =~= widths.take(col));
    if col + 1 == widths.len() {
        assert(widths.take(col + 1) =~= widths);
    } else {
        lemma_area_size(widths, col + 1);
    }
}

/// A number of kilobytes in bytes.
///
/// Calls `ByteSize::kb` of the crate bytesize and reads the byte count with
/// `as_u64`. The crate multiplies the number by 1000, which must not
/// overflow.
#[verifier::external_body]
fn kilobytes(n: u64) -> (bytes: u64)
    requires
        n * 1000 <= u64::MAX,
    ensures
        bytes == n * 1000,
{
    bytesize::ByteSize::kb(n).as_u64()
}

/// A column as a range of rows.
pub trait Vector: HasDataTy {
    /// Number of rows.
    spec fn spec_size(&self) -> nat;

    /// Number of rows.
    fn size(&self) -> (n: usize)
        ensures
            n == self.spec_size(),
    ;

    /// Offset of the first byte in the area that holds the column.
    fn as_ptr(&self) -> usize;

    /// Offset of the first byte in the area that holds the column.
    fn as_mut_ptr(&mut self) -> usize;
}

/// Borrowed vector: a column that lies in an area of another owner.
#[derive(Clone, Copy, Debug)]
pub struct PtrVector {
    ptr: usize,
    size: usize,
    data_type: DataTy,
}

impl PtrVector {
    /// Offset of the first byte in the area.
    pub closed spec fn offset(&self) -> nat {
        self.ptr as nat
    }

    /// Number of rows.
    pub closed spec fn rows(&self) -> nat {
        self.size as nat
    }

    /// The data type of the values.
    pub closed spec fn ty(&self) -> DataType {
        self.data_type
    }

    /// The column of `size` rows of the type `data_type` that begins at the
    /// offset `ptr` of its area.
    pub fn new(ptr: usize, size: usize, data_type: DataTy) -> (v: PtrVector)
        ensures
            v.offset() == ptr,
            v.rows() == size,
            v.ty() == data_type,
    {
        PtrVector { ptr, size, data_type }
    }
}

impl Vector for PtrVector {
    open spec fn spec_size(&self) -> nat {
        self.rows()
    }

    fn size(&self) -> (n: usize) {
        self.size
    }

    #[inline]
    fn as_ptr(&self) -> (p: usize)
        ensures
            p == self.offset(),
    {
        self.ptr
    }

    #[inline]
    fn as_mut_ptr(&mut self) -> (p: usize)
        ensures
            p == old(self).offset(),
            *final(self) == *old(self),
    {
        self.ptr
    }
}

impl HasDataTy for PtrVector {
    open spec fn spec_data_ty(&self) -> DataType {
        self.ty()
    }

    fn data_ty(&self) -> (d: &DataType) {
        &self.data_type
    }
}

/// Where a text lies in the arena of its block: the chunk, the offset of the
/// first byte in the chunk, and the number of bytes.
#[derive(Clone, Copy, Debug, PartialEq, Eq, Structural)]
pub struct TextSlice {
    pub chunk: u64,
    pub offset: u64,
    pub len: u64,
}

/// The bytes that stand for `slice` in a column.
pub open spec fn text_bytes(slice: TextSlice) -> Seq<u8> {
    slice.chunk.encode() + slice.offset.encode() + slice.len.encode()
}

/// What the 24 bytes `bytes` of a column stand for.
pub open spec fn text_of(bytes: Seq<u8>) -> TextSlice {
    TextSlice {
        chunk: u64::decode(bytes.subrange(0, 8)),
        offset: u64::decode(bytes.subrange(8, 16)),
        len: u64::decode(bytes.subrange(16, 24)),
    }
}

impl Scalar for TextSlice {
    open spec fn width() -> nat {
        TEXT_SIZE as nat
    }

    open spec fn encode(self) -> Seq<u8> {
        text_bytes(self)
    }

    open spec fn decode(bytes: Seq<u8>) -> TextSlice {
        text_of(bytes)
    }

    proof fn lemma_round_trip(v: TextSlice) {
        u64::lemma_round_trip(v.chunk);
        u64::lemma_round_trip(v.offset);
        u64::lemma_round_trip(v.len);
        let bytes = text_bytes(v);
        assert(bytes.subrange(0, 8) =~= v.chunk.encode());
        assert(bytes.subrange(8, 16) =~= v.offset.encode());
        assert(bytes.subrange(16, 24) =~= v.len.encode());
    }

    fn size() -> (n: usize) {
        TEXT_SIZE
    }

    fn load(mem: &Vec<u8>, at: usize) -> (v: TextSlice) {
        proof {
            let cell = mem@.subrange(at as int, at + TEXT_SIZE);
            assert(cell.subrange(0, 8) =~= mem@.subrange(at as int, at + 8));
            assert(cell.subrange(8, 16) =~= mem@.subrange(at + 8, at + 16));
            assert(cell.subrange(16, 24) =~= mem@.subrange(at + 16, at + 24));
        }
        TextSlice {
            chunk: u64::load(mem, at),
            offset: u64::load(mem, at + 8),
            len: u64::load(mem, at + 16),
        }
    }

    fn store(self, mem: &mut Vec<u8>, at: usize) {
        proof {
            u64::lemma_round_trip(self.chunk);
            u64::lemma_round_trip(self.offset);
            u64::lemma_round_trip(self.len);
            lemma_overlay_three(
                mem@,
                at as int,
                self.chunk.encode(),
                self.offset.encode(),
                self.len.encode(),
            );
        }
        self.chunk.store(mem, at);
        self.offset.store(mem, at + 8);
        self.len.store(mem, at + 16);
    }
}

/// Block of rows whose columns are borrowed.
pub struct SlotVecRowBlock<'a> {
    schema: Schema,
    vectors: Vec<&'a MiniPage>,
}

impl<'a> SlotVecRowBlock<'a> {
    /// The schema of the rows.
    pub closed spec fn spec_schema(&self) -> Schema {
        self.schema
    }

    /// The columns that were set, in their order.
    pub closed spec fn columns(&self) -> Seq<&'a MiniPage> {
        self.vectors@
    }

    /// A block of rows of the schema `schema` without a column yet.
    pub fn new(schema: Schema) -> (block: SlotVecRowBlock<'a>)
        ensures
            block.spec_schema() == schema,
            block.columns().len() == 0,
    {
        SlotVecRowBlock { schema, vectors: Vec::new() }
    }

    /// The schema of the rows.
    #[inline]
    pub fn schema(&self) -> (s: &Schema)
        ensures
            *s == self.spec_schema(),
    {
        &self.schema
    }

    /// Number of columns of the schema.
    #[inline]
    pub fn column_num(&self) -> (n: usize)
        ensures
            n == self.spec_schema()@.len(),
    {
        self.schema.size()
    }

    /// The column at position `col_id` of those that were set.
    #[inline]
    pub fn vector(&self, col_id: usize) -> (v: &'a MiniPage)
        requires
            col_id < self.columns().len(),
        ensures
            v == self.columns()[col_id as int],
    {
        self.vectors[col_id]
    }

    /// Sets `vec` as the next column.
    #[inline]
    pub fn set_vector(&mut self, vec: &'a MiniPage)
        ensures
            final(self).columns() == old(self).columns().push(vec),
            final(self).spec_schema() == old(self).spec_schema(),
    {
        self.vectors.push(vec);
    }

    /// The value of type `T` at row `row_idx` of column `col_idx`.
    fn get<T: Scalar>(&self, col_idx: usize, row_idx: usize) -> (v: T)
        requires
            col_idx < self.columns().len(),
            self.columns()[col_idx as int].wf(),
            self.columns()[col_idx as int].spec_width() == T::width(),
            row_idx < VECTOR_SIZE,
        ensures
            v == self.columns()[col_idx as int].value::<T>(row_idx as int),
    {
        self.vectors[col_idx].get::<T>(row_idx)
    }

    /// Reads an 8-bit integer at row `row_idx` of column `col_idx`.
    #[inline]
    pub fn get_int1(&self, col_idx: usize, row_idx: usize) -> (v: i8)
        requires
            col_idx < self.columns().len(),
            self.columns()[col_idx as int].wf(),
            self.columns()[col_idx as int].spec_width() == 1,
            row_idx < VECTOR_SIZE,
        ensures
            v == self.columns()[col_idx as int].value::<i8>(row_idx as int),
    {
        self.get::<i8>(col_idx, row_idx)
    }

    /// Reads a 16-bit integer at row `row_idx` of column `col_idx`.
    #[inline]
    pub fn get_int2(&self, col_idx: usize, row_idx: usize) -> (v: i16)
        requires
            col_idx < self.columns().len(),
            self.columns()[col_idx as int].wf(),
            self.columns()[col_idx as int].spec_width() == 2,
            row_idx < VECTOR_SIZE,
        ensures
            v == self.columns()[col_idx as int].value::<i16>(row_idx as int),
    {
        self.get::<i16>(col_idx, row_idx)
    }

    /// Reads a 32-bit integer at row `row_idx` of column `col_idx`.
    #[inline]
    pub fn get_int4(&self, col_idx: usize, row_idx: usize) -> (v: i32)
        requires
            col_idx < self.columns().len(),
            self.columns()[col_idx as int].wf(),
            self.columns()[col_idx as int].spec_width() == 4,
            row_idx < VECTOR_SIZE,
        ensures
            v == self.columns()[col_idx as int].value::<i32>(row_idx as int),
    {
        self.get::<i32>(col_idx, row_idx)
    }

    /// Reads a 64-bit integer at row `row_idx` of column `col_idx`.
    #[inline]
    pub fn get_int8(&self, col_idx: usize, row_idx: usize) -> (v: i64)
        requires
            col_idx < self.columns().len(),
            self.columns()[col_idx as int].wf(),
            self.columns()[col_idx as int].spec_width() == 8,
            row_idx < VECTOR_SIZE,
        ensures
            v == self.columns()[col_idx as int].value::<i64>(row_idx as int),
    {
        self.get::<i64>(col_idx, row_idx)
    }

    /// Reads the bits of a 32-bit floating-point number at row `row_idx` of
    /// column `col_idx`.
    #[inline]
    pub fn get_float4(&self, col_idx: usize, row_idx: usize) -> (v: u32)
        requires
            col_idx < self.columns().len(),
            self.columns()[col_idx as int].wf(),
            self.columns()[col_idx as int].spec_width() == 4,
            row_idx < VECTOR_SIZE,
        ensures
            v == self.columns()[col_idx as int].value::<u32>(row_idx as int),
    {
        self.get::<u32>(col_idx, row_idx)
    }

    /// Reads the bits of a 64-bit floating-point number at row `row_idx` of
    /// column `col_idx`.
    #[inline]
    pub fn get_float8(&self, col_idx: usize, row_idx: usize) -> (v: u64)
        requires
            col_idx < self.columns().len(),
            self.columns()[col_idx as int].wf(),
            self.columns()[col_idx as int].spec_width() == 8,
            row_idx < VECTOR_SIZE,
        ensures
            v == self.columns()[col_idx as int].value::<u64>(row_idx as int),
    {
        self.get::<u64>(col_idx, row_idx)
    }

    /// Reads a date at row `row_idx` of column `col_idx`.
    #[inline]
    pub fn get_date(&self, col_idx: usize, row_idx: usize) -> (v: i32)
        requires
            col_idx < self.columns().len(),
            self.columns()[col_idx as int].wf(),
            self.columns()[col_idx as int].spec_width() == 4,
            row_idx < VECTOR_SIZE,
        ensures
            v == self.columns()[col_idx as int].value::<i32>(row_idx as int),
    {
        self.get::<i32>(col_idx, row_idx)
    }

    /// Reads a time at row `row_idx` of column `col_idx`.
    #[inline]
    pub fn get_time(&self, col_idx: usize, row_idx: usize) -> (v: i64)
        requires
            col_idx < self.columns().len(),
            self.columns()[col_idx as int].wf(),
            self.columns()[col_idx as int].spec_width() == 8,
            row_idx < VECTOR_SIZE,
        ensures
            v == self.columns()[col_idx as int].value::<i64>(row_idx as int),
    {
        self.get::<i64>(col_idx, row_idx)
    }

    /// Reads a timestamp at row `row_idx` of column `col_idx`.
    #[inline]
    pub fn get_timestamp(&self, col_idx: usize, row_idx: usize) -> (v: i64)
        requires
            col_idx < self.columns().len(),
            self.columns()[col_idx as int].wf(),
            self.columns()[col_idx as int].spec_width() == 8,
            row_idx < VECTOR_SIZE,
        ensures
            v == self.columns()[col_idx as int].value::<i64>(row_idx as int),
    {
        self.get::<i64>(col_idx, row_idx)
    }

    /// Reads where the text lies that stands at row `row_idx` of column
    /// `col_idx`, a column of texts.
    #[inline]
    pub fn get_text(&self, col_idx: usize, row_idx: usize) -> (slice: TextSlice)
        requires
            col_idx < self.columns().len(),
            self.columns()[col_idx as int].wf(),
            self.columns()[col_idx as int].spec_width() == TEXT_SIZE,
            row_idx < VECTOR_SIZE,
        ensures
            slice == self.columns()[col_idx as int].value::<TextSlice>(row_idx as int),
    {
        self.get::<TextSlice>(col_idx, row_idx)
    }
}

/// Block of rows that owns one area for all its columns, and an arena for
/// the texts.
pub struct AllocatedVecRowBlock {
    schema: Schema,
    type_lengths: Vec<u32>,
    area: Vec<u8>,
    vectors: Vec<PtrVector>,
    arena: Arena,
}

impl AllocatedVecRowBlock {
    /// The schema of the rows.
    pub closed spec fn spec_schema(&self) -> Schema {
        self.schema
    }

    /// The widths of the columns.
    pub closed spec fn widths(&self) -> Seq<u32> {
        self.type_lengths@
    }

    /// The bytes of the area of the columns.
    pub closed spec fn bytes(&self) -> Seq<u8> {
        self.area@
    }

    /// The columns, each a range of the area.
    pub closed spec fn columns(&self) -> Seq<PtrVector> {
        self.vectors@
    }

    /// The arena of the texts.
    pub closed spec fn spec_arena(&self) -> Arena {
        self.arena
    }

    /// What holds of every block: it has one column for each column of the
    /// schema, of the width of its type; the columns lie one behind the other
    /// in the area, each aligned; and the arena is well formed.
    pub closed spec fn wf(&self) -> bool {
        &&& self.type_lengths@ == widths_of(self.schema)
        &&& self.vectors@.len() == self.type_lengths@.len()
        &&& self.area@.len() == area_size(self.type_lengths@)
        &&& forall|i: int|
            0 <= i < self.vectors@.len() ==> {
                &&& (#[trigger] self.vectors@[i]).offset() == area_size(
                    self.type_lengths@.take(i),
                )
                &&& self.vectors@[i].rows() == VECTOR_SIZE
                &&& self.vectors@[i].ty() == self.schema@[i].data_ty
            }
        &&& self.arena.wf()
    }

    /// Where the value at row `row` of column `col` begins in the area.
    pub open spec fn cell_offset(&self, col: int, row: int) -> int {
        area_size(self.widths().take(col)) + row * self.widths()[col]
    }

    /// The value of type `T` at row `row` of column `col`.
    pub open spec fn value<T: Scalar>(&self, col: int, row: int) -> T {
        T::decode(
            self.bytes().subrange(
                self.cell_offset(col, row),
                self.cell_offset(col, row) + T::width(),
            ),
        )
    }

    /// The cells of a well-formed block lie in its area, one beside the
    /// other.
    pub proof fn lemma_cell(&self, col: int, row: int)
        requires
            self.wf(),
            0 <= col < self.widths().len(),
            0 <= row < VECTOR_SIZE,
        ensures
            0 <= self.cell_offset(col, row),
            self.cell_offset(col, row) + self.widths()[col] <= area_size(
                self.widths().take(col + 1),
            ),
            area_size(self.widths().take(col + 1)) <= self.bytes().len(),
            self.columns()[col].offset() == area_size(self.widths().take(col)),
    {
        lemma_area_size(self.widths(), col);
        lemma_rows_apart(row, VECTOR_SIZE as int, self.widths()[col] as nat);
        if row > 0 {
            lemma_rows_apart(0, row, self.widths()[col] as nat);
        }
    }

    /// Two different cells of a well-formed block do not meet.
    pub proof fn lemma_cells_apart(&self, col: int, row: int, other_col: int, other_row: int)
        requires
            self.wf(),
            0 <= col < self.widths().len(),
            0 <= row < VECTOR_SIZE,
            0 <= other_col < self.widths().len(),
            0 <= other_row < VECTOR_SIZE,
            col != other_col || row != other_row,
        ensures
            self.cell_offset(col, row) + self.widths()[col] <= self.cell_offset(
                other_col,
                other_row,
            ) || self.cell_offset(other_col, other_row) + self.widths()[other_col]
                <= self.cell_offset(col, row),
    {
        self.lemma_cell(col, row);
        self.lemma_cell(other_col, other_row);
        if col == other_col {
            if row < other_row {
                lemma_rows_apart(row, other_row, self.widths()[col] as nat);
            } else {
                lemma_rows_apart(other_row, row, self.widths()[col] as nat);
            }
        } else if col < other_col {
            lemma_area_prefix(self.widths(), col + 1, other_col);
        } else {
            lemma_area_prefix(self.widths(), other_col + 1, col);
        }
    }

    /// A value written into a cell is read back from it, and every other cell
    /// reads as before.
    pub proof fn lemma_put_then_get<T: Scalar, U: Scalar>(
        &self,
        col: int,
        row: int,
        v: T,
        other_col: int,
        other_row: int,
    )
        requires
            self.wf(),
            0 <= col < self.widths().len(),
            0 <= row < VECTOR_SIZE,
            self.widths()[col] == T::width(),
            0 <= other_col < self.widths().len(),
            0 <= other_row < VECTOR_SIZE,
            self.widths()[other_col] == U::width(),
        ensures
            T::decode(
                overlay(self.bytes(), self.cell_offset(col, row), v.encode()).subrange(
                    self.cell_offset(col, row),
                    self.cell_offset(col, row) + T::width(),
                ),
            ) == v,
            col != other_col || row != other_row ==> overlay(
                self.bytes(),
                self.cell_offset(col, row),
                v.encode(),
            ).subrange(
                self.cell_offset(other_col, other_row),
                self.cell_offset(other_col, other_row) + U::width(),
            ) == self.bytes().subrange(
                self.cell_offset(other_col, other_row),
                self.cell_offset(other_col, other_row) + U::width(),
            ),
    {
        T::lemma_round_trip(v);
        self.lemma_cell(col, row);
        self.lemma_cell(other_col, other_row);
        lemma_overlay_read(self.bytes(), self.cell_offset(col, row), v.encode());
        if col != other_col || row != other_row {
            self.lemma_cells_apart(col, row, other_col, other_row);
            lemma_overlay_other(
                self.bytes(),
                self.cell_offset(col, row),
                v.encode(),
                self.cell_offset(other_col, other_row),
                self.cell_offset(other_col, other_row) + U::width(),
            );
        }
    }

    /// A block of rows of the schema `schema`: one area of zeros for all
    /// columns, and an arena with pages of four kilobytes.
    pub fn new(schema: Schema) -> (block: AllocatedVecRowBlock)
        requires
            area_size(widths_of(schema)) + ALIGNED_SIZE <= usize::MAX,
        ensures
            block.wf(),
            block.spec_schema() == schema,
            block.bytes() == Seq::new(area_size(widths_of(schema)), |i: int| 0u8),
            block.spec_arena()@ == Arena::fresh(
                4000,
                crate::memutil::arena::DEFAULT_ALIGNED_SIZE as nat,
            ),
    {
        let mut fixed_area_size: usize = 0;
        let mut type_lengths: Vec<u32> = Vec::new();
        let ghost widths = widths_of(schema);
        let columns = schema.columns();
        let mut i: usize = 0;
        proof {
            assert(widths.take(0) =~= Seq::<u32>::empty());
        }
        while i < columns.len()
            invariant
                i <= columns@.len(),
                columns@ == schema@,
                widths == widths_of(schema),
                area_size(widths) + ALIGNED_SIZE <= usize::MAX,
                type_lengths@ == widths.take(i as int),
                fixed_area_size == area_size(widths.take(i as int)),
            decreases columns@.len() - i,
        {
            let bytes_len: u32 = columns[i].data_ty.bytes_len();
            proof {
                lemma_area_size(widths, i as int);
                assert(widths.take(i as int + 1) =~= widths.take(i as int).push(widths[i as int]));
                assert(bytes_len * VECTOR_SIZE <= usize::MAX) by (nonlinear_arith)
                    requires
                        bytes_len * VECTOR_SIZE <= aligned((bytes_len * VECTOR_SIZE) as nat),
                        aligned((bytes_len * VECTOR_SIZE) as nat) <= usize::MAX,
                ;
            }
            type_lengths.push(bytes_len);
            fixed_area_size = fixed_area_size + compute_aligned_size(
                bytes_len as usize * VECTOR_SIZE,
            );
            i = i + 1;
        }
        proof {
            assert(widths.take(i as int) =~= widths);
        }
        let area: Vec<u8> = vec![0u8; fixed_area_size];
        proof {
            assert(area@ =~= Seq::new(area_size(widths), |k: int| 0u8));
        }
        let mut vectors: Vec<PtrVector> = Vec::new();
        let mut last_ptr: usize = 0;
        let mut x: usize = 0;
        while x < schema.size()
            invariant
                x <= schema@.len(),
                widths == widths_of(schema),
                type_lengths@ == widths,
                area_size(widths) + ALIGNED_SIZE <= usize::MAX,
                vectors@.len() == x,
                last_ptr == area_size(widths.take(x as int)),
                forall|k: int|
                    0 <= k < x ==> {
                        &&& (#[trigger] vectors@[k]).offset() == area_size(widths.take(k))
                        &&& vectors@[k].rows() == VECTOR_SIZE
                        &&& vectors@[k].ty() == schema@[k].data_ty
                    },
            decreases schema@.len() - x,
        {
            let data_ty: DataTy = schema.column(x).data_ty;
            vectors.push(PtrVector::new(last_ptr, VECTOR_SIZE, data_ty));
            proof {
                lemma_area_size(widths, x as int);
            }
            let vector_size: usize = compute_aligned_size(data_ty.bytes_len(
                ) as usize * VECTOR_SIZE);
            last_ptr = last_ptr + vector_size;
            x = x + 1;
        }
        AllocatedVecRowBlock {
            schema,
            type_lengths,
            area,
            vectors,
            arena: Arena::new(kilobytes(4) as usize),
        }
    }

    /// The schema of the rows.
    pub fn schema(&self) -> (s: &Schema)
        ensures
            *s == self.spec_schema(),
    {
        &self.schema
    }

    /// Number of columns.
    pub fn column_num(&self) -> (n: usize)
        ensures
            n == self.spec_schema()@.len(),
    {
        self.schema.size()
    }

    /// The column at position `col_id`.
    pub fn vector(&self, col_id: usize) -> (v: &PtrVector)
        requires
            col_id < self.columns().len(),
        ensures
            *v == self.columns()[col_id as int],
    {
        &self.vectors[col_id]
    }

    /// The arena of the texts.
    pub fn arena(&self) -> (a: &Arena)
        ensures
            *a == self.spec_arena(),
    {
        &self.arena
    }

    /// Writes `v` at row `row_idx` of column `col_idx`. No other byte of the
    /// area changes.
    fn put<T: Scalar>(&mut self, col_idx: usize, row_idx: usize, v: T)
        requires
            old(self).wf(),
            col_idx < old(self).widths().len(),
            old(self).widths()[col_idx as int] == T::width(),
            row_idx < VECTOR_SIZE,
        ensures
            final(self).wf(),
            final(self).spec_schema() == old(self).spec_schema(),
            final(self).widths() == old(self).widths(),
            final(self).columns() == old(self).columns(),
            final(self).spec_arena() == old(self).spec_arena(),
            final(self).bytes() == overlay(
                old(self).bytes(),
                old(self).cell_offset(col_idx as int, row_idx as int),
                v.encode(),
            ),
    {
        let w: usize = T::size();
        let len: usize = self.area.len();
        proof {
            self.lemma_cell(col_idx as int, row_idx as int);
            T::lemma_round_trip(v);
            assert(self.cell_offset(col_idx as int, row_idx as int)
                == self.vectors@[col_idx as int].offset()
                + row_idx * w);
            assert(0 <= row_idx * w <= len) by (nonlinear_arith)
                requires
                    0 <= self.vectors@[col_idx as int].offset(),
                    self.vectors@[col_idx as int].offset() + row_idx * w + w <= len,
                    0 <= w,
                    0 <= row_idx,
            ;
        }
        let at: usize = self.vectors[col_idx].as_ptr() + row_idx * w;
        v.store(&mut self.area, at);
    }

    /// The value of type `T` at row `row_idx` of column `col_idx`.
    fn get<T: Scalar>(&self, col_idx: usize, row_idx: usize) -> (v: T)
        requires
            self.wf(),
            col_idx < self.widths().len(),
            self.widths()[col_idx as int] == T::width(),
            row_idx < VECTOR_SIZE,
        ensures
            v == self.value::<T>(col_idx as int, row_idx as int),
    {
        let w: usize = T::size();
        let len: usize = self.area.len();
        proof {
            self.lemma_cell(col_idx as int, row_idx as int);
            assert(self.cell_offset(col_idx as int, row_idx as int)
                == self.vectors@[col_idx as int].offset()
                + row_idx * w);
            assert(0 <= row_idx * w <= len) by (nonlinear_arith)
                requires
                    0 <= self.vectors@[col_idx as int].offset(),
                    self.vectors@[col_idx as int].offset() + row_idx * w + w <= len,
                    0 <= w,
                    0 <= row_idx,
            ;
        }
        let at: usize = self.vectors[col_idx].as_ptr() + row_idx * w;
        T::load(&self.area, at)
    }

    /// Writes an 8-bit integer at row `row_idx` of column `col_idx`. No other
    /// byte of the area changes.
    #[inline]
    pub fn put_int1(&mut self, col_idx: usize, row_idx: usize, value: i8)
        requires
            old(self).wf(),
            col_idx < old(self).widths().len(),
            old(self).widths()[col_idx as int] == 1,
            row_idx < VECTOR_SIZE,
        ensures
            final(self).wf(),
            final(self).spec_schema() == old(self).spec_schema(),
            final(self).widths() == old(self).widths(),
            final(self).columns() == old(self).columns(),
            final(self).spec_arena() == old(self).spec_arena(),
            final(self).bytes() == overlay(
                old(self).bytes(),
                old(self).cell_offset(col_idx as int, row_idx as int),
                value.encode(),
            ),
    {
        self.put::<i8>(col_idx, row_idx, value);
    }

    /// Reads an 8-bit integer at row `row_idx` of column `col_idx`.
    #[inline]
    pub fn get_int1(&self, col_idx: usize, row_idx: usize) -> (v: i8)
        requires
            self.wf(),
            col_idx < self.widths().len(),
            self.widths()[col_idx as int] == 1,
            row_idx < VECTOR_SIZE,
        ensures
            v == self.value::<i8>(col_idx as int, row_idx as int),
    {
        self.get::<i8>(col_idx, row_idx)
    }

    /// Writes a 16-bit integer at row `row_idx` of column `col_idx`. No other
    /// byte of the area changes.
    #[inline]
    pub fn put_int2(&mut self, col_idx: usize, row_idx: usize, value: i16)
        requires
            old(self).wf(),
            col_idx < old(self).widths().len(),
            old(self).widths()[col_idx as int] == 2,
            row_idx < VECTOR_SIZE,
        ensures
            final(self).wf(),
            final(self).spec_schema() == old(self).spec_schema(),
            final(self).widths() == old(self).widths(),
            final(self).columns() == old(self).columns(),
            final(self).spec_arena() == old(self).spec_arena(),
            final(self).bytes() == overlay(
                old(self).bytes(),
                old(self).cell_offset(col_idx as int, row_idx as int),
                value.encode(),
            ),
    {
        self.put::<i16>(col_idx, row_idx, value);
    }

    /// Reads a 16-bit integer at row `row_idx` of column `col_idx`.
    #[inline]
    pub fn get_int2(&self, col_idx: usize, row_idx: usize) -> (v: i16)
        requires
            self.wf(),
            col_idx < self.widths().len(),
            self.widths()[col_idx as int] == 2,
            row_idx < VECTOR_SIZE,
        ensures
            v == self.value::<i16>(col_idx as int, row_idx as int),
    {
        self.get::<i16>(col_idx, row_idx)
    }

    /// Writes a 32-bit integer at row `row_idx` of column `col_idx`. No other
    /// byte of the area changes.
    #[inline]
    pub fn put_int4(&mut self, col_idx: usize, row_idx: usize, value: i32)
        requires
            old(self).wf(),
            col_idx < old(self).widths().len(),
            old(self).widths()[col_idx as int] == 4,
            row_idx < VECTOR_SIZE,
        ensures
            final(self).wf(),
            final(self).spec_schema() == old(self).spec_schema(),
            final(self).widths() == old(self).widths(),
            final(self).columns() == old(self).columns(),
            final(self).spec_arena() == old(self).spec_arena(),
            final(self).bytes() == overlay(
                old(self).bytes(),
                old(self).cell_offset(col_idx as int, row_idx as int),
                value.encode(),
            ),
    {
        self.put::<i32>(col_idx, row_idx, value);
    }

    /// Reads a 32-bit integer at row `row_idx` of column `col_idx`.
    #[inline]
    pub fn get_int4(&self, col_idx: usize, row_idx: usize) -> (v: i32)
        requires
            self.wf(),
            col_idx < self.widths().len(),
            self.widths()[col_idx as int] == 4,
            row_idx < VECTOR_SIZE,
        ensures
            v == self.value::<i32>(col_idx as int, row_idx as int),
    {
        self.get::<i32>(col_idx, row_idx)
    }

    /// Writes a 64-bit integer at row `row_idx` of column `col_idx`. No other
    /// byte of the area changes.
    #[inline]
    pub fn put_int8(&mut self, col_idx: usize, row_idx: usize, value: i64)
        requires
            old(self).wf(),
            col_idx < old(self).widths().len(),
            old(self).widths()[col_idx as int] == 8,
            row_idx < VECTOR_SIZE,
        ensures
            final(self).wf(),
            final(self).spec_schema() == old(self).spec_schema(),
            final(self).widths() == old(self).widths(),
            final(self).columns() == old(self).columns(),
            final(self).spec_arena() == old(self).spec_arena(),
            final(self).bytes() == overlay(
                old(self).bytes(),
                old(self).cell_offset(col_idx as int, row_idx as int),
                value.encode(),
            ),
    {
        self.put::<i64>(col_idx, row_idx, value);
    }

    /// Reads a 64-bit integer at row `row_idx` of column `col_idx`.
    #[inline]
    pub fn get_int8(&self, col_idx: usize, row_idx: usize) -> (v: i64)
        requires
            self.wf(),
            col_idx < self.widths().len(),
            self.widths()[col_idx as int] == 8,
            row_idx < VECTOR_SIZE,
        ensures
            v == self.value::<i64>(col_idx as int, row_idx as int),
    {
        self.get::<i64>(col_idx, row_idx)
    }

    /// Writes the bits of a 32-bit floating-point number at row `row_idx` of
    /// column `col_idx`. No other byte of the area changes.
    #[inline]
    pub fn put_float4(&mut self, col_idx: usize, row_idx: usize, value: u32)
        requires
            old(self).wf(),
            col_idx < old(self).widths().len(),
            old(self).widths()[col_idx as int] == 4,
            row_idx < VECTOR_SIZE,
        ensures
            final(self).wf(),
            final(self).spec_schema() == old(self).spec_schema(),
            final(self).widths() == old(self).widths(),
            final(self).columns() == old(self).columns(),
            final(self).spec_arena() == old(self).spec_arena(),
            final(self).bytes() == overlay(
                old(self).bytes(),
                old(self).cell_offset(col_idx as int, row_idx as int),
                value.encode(),
            ),
    {
        self.put::<u32>(col_idx, row_idx, value);
    }

    /// Reads the bits of a 32-bit floating-point number at row `row_idx` of
    /// column `col_idx`.
    #[inline]
    pub fn get_float4(&self, col_idx: usize, row_idx: usize) -> (v: u32)
        requires
            self.wf(),
            col_idx < self.widths().len(),
            self.widths()[col_idx as int] == 4,
            row_idx < VECTOR_SIZE,
        ensures
            v == self.value::<u32>(col_idx as int, row_idx as int),
    {
        self.get::<u32>(col_idx, row_idx)
    }

    /// Writes the bits of a 64-bit floating-point number at row `row_idx` of
    /// column `col_idx`. No other byte of the area changes.
    #[inline]
    pub fn put_float8(&mut self, col_idx: usize, row_idx: usize, value: u64)
        requires
            old(self).wf(),
            col_idx < old(self).widths().len(),
            old(self).widths()[col_idx as int] == 8,
            row_idx < VECTOR_SIZE,
        ensures
            final(self).wf(),
            final(self).spec_schema() == old(self).spec_schema(),
            final(self).widths() == old(self).widths(),
            final(self).columns() == old(self).columns(),
            final(self).spec_arena() == old(self).spec_arena(),
            final(self).bytes() == overlay(
                old(self).bytes(),
                old(self).cell_offset(col_idx as int, row_idx as int),
                value.encode(),
            ),
    {
        self.put::<u64>(col_idx, row_idx, value);
    }

    /// Reads the bits of a 64-bit floating-point number at row `row_idx` of
    /// column `col_idx`.
    #[inline]
    pub fn get_float8(&self, col_idx: usize, row_idx: usize) -> (v: u64)
        requires
            self.wf(),
            col_idx < self.widths().len(),
            self.widths()[col_idx as int] == 8,
            row_idx < VECTOR_SIZE,
        ensures
            v == self.value::<u64>(col_idx as int, row_idx as int),
    {
        self.get::<u64>(col_idx, row_idx)
    }

    /// Writes a date at row `row_idx` of column `col_idx`. No other byte of
    /// the area changes.
    #[inline]
    pub fn put_date(&mut self, col_idx: usize, row_idx: usize, value: i32)
        requires
            old(self).wf(),
            col_idx < old(self).widths().len(),
            old(self).widths()[col_idx as int] == 4,
            row_idx < VECTOR_SIZE,
        ensures
            final(self).wf(),
            final(self).spec_schema() == old(self).spec_schema(),
            final(self).widths() == old(self).widths(),
            final(self).columns() == old(self).columns(),
            final(self).spec_arena() == old(self).spec_arena(),
            final(self).bytes() == overlay(
                old(self).bytes(),
                old(self).cell_offset(col_idx as int, row_idx as int),
                value.encode(),
            ),
    {
        self.put::<i32>(col_idx, row_idx, value);
    }

    /// Reads a date at row `row_idx` of column `col_idx`.
    #[inline]
    pub fn get_date(&self, col_idx: usize, row_idx: usize) -> (v: i32)
        requires
            self.wf(),
            col_idx < self.widths().len(),
            self.widths()[col_idx as int] == 4,
            row_idx < VECTOR_SIZE,
        ensures
            v == self.value::<i32>(col_idx as int, row_idx as int),
    {
        self.get::<i32>(col_idx, row_idx)
    }

    /// Writes a time at row `row_idx` of column `col_idx`. No other byte of
    /// the area changes.
    #[inline]
    pub fn put_time(&mut self, col_idx: usize, row_idx: usize, value: i64)
        requires
            old(self).wf(),
            col_idx < old(self).widths().len(),
            old(self).widths()[col_idx as int] == 8,
            row_idx < VECTOR_SIZE,
        ensures
            final(self).wf(),
            final(self).spec_schema() == old(self).spec_schema(),
            final(self).widths() == old(self).widths(),
            final(self).columns() == old(self).columns(),
            final(self).spec_arena() == old(self).spec_arena(),
            final(self).bytes() == overlay(
                old(self).bytes(),
                old(self).cell_offset(col_idx as int, row_idx as int),
                value.encode(),
            ),
    {
        self.put::<i64>(col_idx, row_idx, value);
    }

    /// Reads a time at row `row_idx` of column `col_idx`.
    #[inline]
    pub fn get_time(&self, col_idx: usize, row_idx: usize) -> (v: i64)
        requires
            self.wf(),
            col_idx < self.widths().len(),
            self.widths()[col_idx as int] == 8,
            row_idx < VECTOR_SIZE,
        ensures
            v == self.value::<i64>(col_idx as int, row_idx as int),
    {
        self.get::<i64>(col_idx, row_idx)
    }

    /// Writes a timestamp at row `row_idx` of column `col_idx`. No other byte
    /// of the area changes.
    #[inline]
    pub fn put_timestamp(&mut self, col_idx: usize, row_idx: usize, value: i64)
        requires
            old(self).wf(),
            col_idx < old(self).widths().len(),
            old(self).widths()[col_idx as int] == 8,
            row_idx < VECTOR_SIZE,
        ensures
            final(self).wf(),
            final(self).spec_schema() == old(self).spec_schema(),
            final(self).widths() == old(self).widths(),
            final(self).columns() == old(self).columns(),
            final(self).spec_arena() == old(self).spec_arena(),
            final(self).bytes() == overlay(
                old(self).bytes(),
                old(self).cell_offset(col_idx as int, row_idx as int),
                value.encode(),
            ),
    {
        self.put::<i64>(col_idx, row_idx, value);
    }

    /// Reads a timestamp at row `row_idx` of column `col_idx`.
    #[inline]
    pub fn get_timestamp(&self, col_idx: usize, row_idx: usize) -> (v: i64)
        requires
            self.wf(),
            col_idx < self.widths().len(),
            self.widths()[col_idx as int] == 8,
            row_idx < VECTOR_SIZE,
        ensures
            v == self.value::<i64>(col_idx as int, row_idx as int),
    {
        self.get::<i64>(col_idx, row_idx)
    }

    /// Copies `value` into the arena and writes where it lies at row
    /// `row_idx` of column `col_idx`, a column of texts. No other byte of the
    /// area changes.
    pub fn put_text(&mut self, col_idx: usize, row_idx: usize, value: &str) -> (slice: TextSlice)
        requires
            old(self).wf(),
            col_idx < old(self).widths().len(),
            old(self).widths()[col_idx as int] == TEXT_SIZE,
            row_idx < VECTOR_SIZE,
            alloc_step(old(self).spec_arena()@, value.spec_bytes().len()).allocated <= usize::MAX,
        ensures
            final(self).wf(),
            final(self).spec_schema() == old(self).spec_schema(),
            final(self).widths() == old(self).widths(),
            final(self).columns() == old(self).columns(),
            final(self).spec_arena()@ == alloc_step(
                old(self).spec_arena()@,
                value.spec_bytes().len(),
            ),
            slice.chunk == final(self).spec_arena()@.retired.len(),
            slice.offset == final(self).spec_arena()@.offset - value.spec_bytes().len(),
            slice.len == value.spec_bytes().len(),
            slice.chunk < final(self).spec_arena().memory().len(),
            slice.offset + slice.len <= final(self).spec_arena().memory()[slice.chunk as int].len(),
            final(self).spec_arena().memory()[slice.chunk as int].subrange(
                slice.offset as int,
                slice.offset + slice.len,
            ) == value.spec_bytes(),
            final(self).bytes() == overlay(
                old(self).bytes(),
                old(self).cell_offset(col_idx as int, row_idx as int),
                text_bytes(slice),
            ),
    {
        let addr = self.arena.alloc_str(value);
        let slice = TextSlice {
            chunk: addr.chunk as u64,
            offset: addr.offset as u64,
            len: value.len() as u64,
        };
        proof {
            self.arena.lemma_wf();
        }
        self.put::<TextSlice>(col_idx, row_idx, slice);
        slice
    }

    /// Reads where the text lies that was written at row `row_idx` of column
    /// `col_idx`, a column of texts.
    #[inline]
    pub fn get_text(&self, col_idx: usize, row_idx: usize) -> (slice: TextSlice)
        requires
            self.wf(),
            col_idx < self.widths().len(),
            self.widths()[col_idx as int] == TEXT_SIZE,
            row_idx < VECTOR_SIZE,
        ensures
            slice == self.value::<TextSlice>(col_idx as int, row_idx as int),
    {
        self.get::<TextSlice>(col_idx, row_idx)
    }

    /// The bytes of the text that lies at `slice` in the arena, where such a
    /// range lies in the arena.
    pub fn read_text(&self, slice: &TextSlice) -> (r: Option<Vec<u8>>)
        requires
            self.wf(),
        ensures
            match r {
                Some(text) => slice.chunk < self.spec_arena().memory().len() && slice.offset
                    + slice.len <= self.spec_arena().memory()[slice.chunk as int].len() && text@
                    == self.spec_arena().memory()[slice.chunk as int].subrange(
                    slice.offset as int,
                    slice.offset + slice.len,
                ),
                None => !(slice.chunk < self.spec_arena().memory().len() && slice.offset
                    + slice.len <= self.spec_arena().memory()[slice.chunk as int].len()),
            },
    {
        if slice.chunk > usize::MAX as u64 || slice.offset > usize::MAX as u64 || slice.len
            > usize::MAX as u64 {
            proof {
                self.arena.lemma_wf();
            }
            return None;
        }
        let chunk: usize = slice.chunk as usize;
        let offset: usize = slice.offset as usize;
        let len: usize = slice.len as usize;
        match self.arena.chunk_len(chunk) {
            Some(size) => {
                if offset <= size && len <= size - offset {
                    Some(self.arena.load_bytes(chunk, offset, len))
                } else {
                    None
                }
            },
            None => None,
        }
    }
}

/// Three values written one behind the other are their bytes written as
/// one.
pub proof fn lemma_overlay_three(mem: Seq<u8>, at: int, a: Seq<u8>, b: Seq<u8>, c: Seq<u8>)
    requires
        0 <= at,
        at + a.len() + b.len() + c.len() <= mem.len(),
    ensures
        overlay(overlay(overlay(mem, at, a), at + a.len(), b), at + a.len() + b.len(), c)
            == overlay(mem, at, a + b + c),
{
    assert(overlay(overlay(overlay(mem, at, a), at + a.len(), b), at + a.len() + b.len(), c)
        =~= overlay(mem, at, a + b + c));
}

/// The area of the columns up to a column is no larger than that of the
/// columns up to a later one.
pub proof fn lemma_area_prefix(widths: Seq<u32>, k: int, m: int)
    requires
        0 <= k <= m <= widths.len(),
    ensures
        area_size(widths.take(k)) <= area_size(widths.take(m)),
    decreases m - k,
{
    if k < m {
        assert(widths.take(m).drop_last() =~= widths.take(m - 1));
        lemma_area_prefix(widths, k, m - 1);
    }
}

} // verus!
