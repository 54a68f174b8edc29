use tajo::codec::Scalar;
use tajo::common::types::Ty;
use tajo::constant::{ALIGNED_SIZE, TEXT_SIZE, VECTOR_SIZE};
use tajo::memutil::arena::DEFAULT_ALIGNED_SIZE;
use tajo::rows::minipage::MiniPage;
use tajo::rows::page::{Page, PageBuilder};
use tajo::rows::vrows::{
    compute_aligned_size, AllocatedVecRowBlock, PtrVector, SlotVecRowBlock, TextSlice, Vector,
};
use tajo::schema::{Column, Schema};
use tajo::types::{DataType, HasDataTy};

#[test]
fn test_minipage_put_and_get() {
    let mut page = MiniPage::new(<i16 as Scalar>::size());
    assert_eq!(page.width(), 2);
    assert_eq!(page.as_bytes().len(), 2 * VECTOR_SIZE);
    page.put::<i16>(0, -3);
    page.put::<i16>(1023, 777);
    page.put::<i16>(5, 5);
    page.put::<i16>(5, 6);
    assert_eq!(page.get::<i16>(0), -3);
    assert_eq!(page.get::<i16>(5), 6);
    assert_eq!(page.get::<i16>(1023), 777);
    assert_eq!(page.get::<i16>(4), 0);
    assert_eq!(&page.as_bytes()[0..2], [0xfd, 0xff]);
    let mut copy = MiniPage::new(2);
    copy.copy_from(&page);
    assert_eq!(copy.as_bytes(), page.as_bytes());
    copy.fill::<i16>(-1);
    assert!(copy.as_bytes().iter().all(|b| *b == 0xff));
    assert_eq!(page.get::<i16>(0), -3);
}

#[test]
fn test_minipage_from_vec() {
    let page = MiniPage::from_vec(&vec![true, false, true]);
    assert_eq!(page.width(), 1);
    assert_eq!(page.to_vec::<bool>(4), vec![true, false, true, false]);
    let empty = MiniPage::from_vec(&Vec::<i64>::new());
    assert_eq!(empty.to_vec::<i64>(2), vec![0, 0]);
    assert_eq!(empty.to_vec::<i64>(0), Vec::<i64>::new());
    let full: Vec<i32> = (0..VECTOR_SIZE as i32).collect();
    assert_eq!(MiniPage::from_vec(&full).to_vec::<i32>(VECTOR_SIZE), full);
}

#[test]
fn test_page() {
    let mut page = Page::new(vec![MiniPage::new(4), MiniPage::new(8)], 3);
    assert_eq!(page.minipage_num(), 2);
    assert_eq!(page.value_count(), 3);
    assert!(page.selection().is_none());
    assert_eq!(page.minipage(1).width(), 8);
    page.set_selection(vec![2, 0]);
    assert_eq!(page.selection().unwrap(), [2, 0]);
    page.clear_selection();
    assert!(page.selection().is_none());
}

#[test]
fn test_page_builder() {
    let mut builder = PageBuilder::new(&vec![Ty::Int4, Ty::Bool, Ty::Clob, Ty::Char(5)]);
    assert_eq!(builder.column_num(), 4);
    assert_eq!(builder.column_width(0), 4);
    assert_eq!(builder.column_width(1), 1);
    assert_eq!(builder.column_width(2), TEXT_SIZE);
    assert_eq!(builder.column_width(3), 5);
    builder.write::<i32>(0, 0, 11);
    builder.write::<i32>(0, 1, 12);
    builder.write::<bool>(1, 1, true);
    {
        let page = builder.build(2);
        assert_eq!(page.value_count(), 2);
        assert!(page.selection().is_none());
        assert_eq!(page.minipage(0).to_vec::<i32>(2), vec![11, 12]);
        assert_eq!(page.minipage(1).to_vec::<bool>(2), vec![false, true]);
    }
    builder.reset();
    {
        let page = builder.build(0);
        assert_eq!(page.value_count(), 0);
        // the buffers hold what they held
        assert_eq!(page.minipage(0).get::<i32>(1), 12);
    }
    builder.set_column(0, &MiniPage::from_vec(&vec![5i32]));
    assert_eq!(builder.build(1).minipage(0).to_vec::<i32>(2), vec![5, 0]);
}

#[test]
fn test_aligned_size() {
    assert_eq!(ALIGNED_SIZE, 16);
    assert_eq!(DEFAULT_ALIGNED_SIZE, 16);
    assert_eq!(compute_aligned_size(0), 0);
    assert_eq!(compute_aligned_size(1), 16);
    assert_eq!(compute_aligned_size(16), 16);
    assert_eq!(compute_aligned_size(17), 32);
    assert_eq!(compute_aligned_size(1023), 1024);
}

fn schema() -> Schema {
    let mut s = Schema::new(Vec::new());
    s.add(Column::new("a", tajo::types::Ty::Int1));
    s.add(Column::new("b", tajo::types::Ty::Int4));
    s.add(Column::new("c", tajo::types::Ty::Text));
    s.add(Column::new("d", tajo::types::Ty::Int8));
    s.add(Column::new("e", tajo::types::Ty::Int2));
    s.add(Column::new("f", tajo::types::Ty::Float8));
    s.add(Column::new("g", tajo::types::Ty::Float4));
    s.add(Column::new("h", tajo::types::Ty::Date));
    s.add(Column::new("i", tajo::types::Ty::Time));
    s.add(Column::new("j", tajo::types::Ty::Timestamp));
    s
}

#[test]
fn test_allocated_block_layout() {
    let block = AllocatedVecRowBlock::new(schema());
    assert_eq!(block.column_num(), 10);
    assert_eq!(block.schema().size(), 10);
    // every column begins at a multiple of the alignment, behind the one before
    let widths = [1usize, 4, 24, 8, 2, 8, 4, 4, 8, 8];
    let mut offset = 0;
    for (i, w) in widths.iter().enumerate() {
        let v: &PtrVector = block.vector(i);
        assert_eq!(v.as_ptr(), offset);
        assert_eq!(v.size(), VECTOR_SIZE);
        assert_eq!(v.data_ty().bytes_len() as usize, *w);
        offset += w * VECTOR_SIZE;
        assert_eq!(offset % 16, 0);
    }
    // the arena of the texts has pages of four kilobytes
    assert_eq!(block.arena().allocated_size(), 4000);
    assert_eq!(block.arena().chunk_num(), 0);
}

#[test]
fn test_allocated_block_put_and_get() {
    let mut block = AllocatedVecRowBlock::new(schema());
    block.put_int1(0, 1023, -7);
    block.put_int4(1, 0, 77);
    block.put_int8(3, 0, i64::MIN);
    block.put_int2(4, 3, 300);
    block.put_float8(5, 2, (2.5f64).to_bits());
    block.put_float4(6, 2, (-0.5f32).to_bits());
    block.put_date(7, 9, 19000);
    block.put_time(8, 9, 86_399_000_000);
    block.put_timestamp(9, 9, -1);
    // a value at the end of a column does not reach into the next column
    assert_eq!(block.get_int4(1, 0), 77);
    assert_eq!(block.get_int1(0, 1023), -7);
    assert_eq!(block.get_int1(0, 1022), 0);
    assert_eq!(block.get_int8(3, 0), i64::MIN);
    assert_eq!(block.get_int8(3, 1), 0);
    assert_eq!(block.get_int2(4, 3), 300);
    assert_eq!(f64::from_bits(block.get_float8(5, 2)), 2.5);
    assert_eq!(f32::from_bits(block.get_float4(6, 2)), -0.5);
    assert_eq!(block.get_date(7, 9), 19000);
    assert_eq!(block.get_time(8, 9), 86_399_000_000);
    assert_eq!(block.get_timestamp(9, 9), -1);
}

#[test]
fn test_allocated_block_texts() {
    let mut block = AllocatedVecRowBlock::new(schema());
    let first = block.put_text(2, 0, "abc");
    let second = block.put_text(2, 5, "");
    let third = block.put_text(2, 1, "wxyz");
    assert_eq!(first, TextSlice { chunk: 0, offset: 0, len: 3 });
    assert_eq!(second, TextSlice { chunk: 0, offset: 3, len: 0 });
    assert_eq!(third, TextSlice { chunk: 0, offset: 3, len: 4 });
    assert_eq!(block.get_text(2, 0), first);
    assert_eq!(block.get_text(2, 1), third);
    assert_eq!(block.get_text(2, 5), second);
    assert_eq!(block.read_text(&block.get_text(2, 0)).unwrap(), b"abc".to_vec());
    assert_eq!(block.read_text(&block.get_text(2, 1)).unwrap(), b"wxyz".to_vec());
    assert_eq!(block.read_text(&block.get_text(2, 5)).unwrap(), Vec::<u8>::new());
    // a text that is larger than a page of the arena takes a chunk of its own
    let long = "x".repeat(5000);
    let fourth = block.put_text(2, 2, &long);
    assert_eq!(fourth, TextSlice { chunk: 1, offset: 0, len: 5000 });
    assert_eq!(block.read_text(&fourth).unwrap().len(), 5000);
    assert_eq!(block.read_text(&first).unwrap(), b"abc".to_vec());
    assert_eq!(block.arena().used_size(), 5007);
    // a slice that lies nowhere in the arena
    assert!(block.read_text(&TextSlice { chunk: 2, offset: 0, len: 0 }).is_none());
    assert!(block.read_text(&TextSlice { chunk: 1, offset: 4999, len: 2 }).is_none());
    assert!(block.read_text(&TextSlice { chunk: 0, offset: u64::MAX, len: 2 }).is_none());
}

#[test]
fn test_slot_block() {
    let a = MiniPage::from_vec(&vec![1i32, 2, 3]);
    let b = MiniPage::from_vec(&vec![-1i64]);
    let c = MiniPage::from_vec(&vec![-2i8]);
    let d = MiniPage::from_vec(&vec![-3i16]);
    let e = MiniPage::from_vec(&vec![(0.25f32).to_bits()]);
    let f = MiniPage::from_vec(&vec![(0.75f64).to_bits()]);
    let mut block = SlotVecRowBlock::new(schema());
    assert_eq!(block.column_num(), 10);
    assert_eq!(block.schema().size(), 10);
    for v in [&a, &b, &c, &d, &e, &f].iter() {
        block.set_vector(v);
    }
    assert!(std::ptr::eq(block.vector(1), &b));
    assert_eq!(block.get_int4(0, 2), 3);
    assert_eq!(block.get_date(0, 1), 2);
    assert_eq!(block.get_int8(1, 0), -1);
    assert_eq!(block.get_time(1, 0), -1);
    assert_eq!(block.get_timestamp(1, 1), 0);
    assert_eq!(block.get_int1(2, 0), -2);
    assert_eq!(block.get_int2(3, 0), -3);
    assert_eq!(f32::from_bits(block.get_float4(4, 0)), 0.25);
    assert_eq!(f64::from_bits(block.get_float8(5, 0)), 0.75);
}

#[test]
fn test_slot_block_texts() {
    let mut texts = MiniPage::new(TEXT_SIZE);
    let slice = TextSlice { chunk: 3, offset: 1 << 40, len: 9 };
    texts.put::<TextSlice>(1023, slice);
    texts.put::<TextSlice>(7, TextSlice { chunk: 0, offset: 0, len: 1 });
    let mut block = SlotVecRowBlock::new(schema());
    block.set_vector(&texts);
    assert_eq!(block.get_text(0, 1023), slice);
    assert_eq!(block.get_text(0, 7), TextSlice { chunk: 0, offset: 0, len: 1 });
    assert_eq!(block.get_text(0, 8), TextSlice { chunk: 0, offset: 0, len: 0 });
    // chunk, offset and length lie one behind the other, eight bytes each
    assert_eq!(texts.as_bytes()[7 * 24 + 16], 1);
    assert_eq!(texts.as_bytes()[1023 * 24], 3);
    assert_eq!(texts.as_bytes()[1023 * 24 + 8 + 5], 1);
}

#[test]
fn test_ptr_vector() {
    let ty = DataType::new(tajo::types::Ty::Int4);
    let mut v = PtrVector::new(64, 10, ty);
    assert_eq!(v.as_ptr(), 64);
    assert_eq!(v.as_mut_ptr(), 64);
    assert_eq!(v.size(), 10);
    assert_eq!(*v.data_ty(), ty);
}
