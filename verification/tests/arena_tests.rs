use bytesize::ByteSize;
use tajo::memutil::arena::Arena;
use tajo::memutil::buffer::Buf;

fn kb(n: u64) -> usize {
    ByteSize::kb(n).as_u64() as usize
}

#[test]
fn test_buf_read_write() {
    let mut arena = Arena::new(kb(16));
    let mut buf = arena.allocate(kb(1));
    let mut copy = buf;

    buf.write_bool(&mut arena, true);
    buf.write_i8(&mut arena, 1);
    buf.write_i16(&mut arena, 9);
    buf.write_i32(&mut arena, 8);
    buf.write_i64(&mut arena, 0);
    buf.write_f32(&mut arena, (4.0f32).to_bits());
    buf.write_f64(&mut arena, (1.0f64).to_bits());

    assert_eq!(copy.read_bool(&arena), true);
    assert_eq!(copy.read_i8(&arena), 1);
    assert_eq!(copy.read_i16(&arena), 9);
    assert_eq!(copy.read_i32(&arena), 8);
    assert_eq!(copy.read_i64(&arena), 0);
    assert_eq!(f32::from_bits(copy.read_f32(&arena)), 4 as f32);
    assert_eq!(f64::from_bits(copy.read_f64(&arena)), 1 as f64);
}

/// Writes `v` where the cursor has room for it, and fails as an overrun
/// where it has none.
fn write_i32_checked(buf: &mut Buf, arena: &mut Arena, v: i32) {
    if !buf.fits_in(arena) || buf.remaining() < 4 {
        panic!("buffer overrun");
    }
    buf.write_i32(arena, v);
}

#[test]
#[should_panic(expected = "buffer overrun")]
fn test_write_buf_overrun() {
    let mut arena = Arena::new(kb(16));
    let mut buf = arena.allocate(ByteSize::b(16).as_u64() as usize);

    write_i32_checked(&mut buf, &mut arena, 1);
    write_i32_checked(&mut buf, &mut arena, 2);
    write_i32_checked(&mut buf, &mut arena, 3);
    write_i32_checked(&mut buf, &mut arena, 4);

    write_i32_checked(&mut buf, &mut arena, 5);
}

#[test]
#[allow(unused_variables)]
fn test_many_chunks() {
    let mut arena = Arena::new(kb(4));

    for i in 0..1024 {
        arena.allocate(kb(2));
    }

    assert_eq!(arena.chunk_num(), 511);
    assert_eq!(arena.allocated_size(), kb(2048));
}

#[test]
#[allow(unused_variables)]
fn test_large_chunks() {
    let mut arena = Arena::new(kb(4));

    for i in 0..1024 {
        arena.allocate(kb(8));
    }

    assert_eq!(arena.chunk_num(), 1023);
    assert_eq!(arena.allocated_size(), kb(8 * 1024));
}

#[test]
fn test_round_trip_of_every_type_at_its_limits() {
    let mut arena = Arena::new(64);
    let mut buf = arena.allocate(64);
    let mut copy = buf;
    let i8s = [i8::MIN, -1, 0, 1, i8::MAX];
    let i16s = [i16::MIN, -257, 255, i16::MAX];
    let i32s = [i32::MIN, -65537, 16777216, i32::MAX];
    let i64s = [i64::MIN, -4294967297, 72057594037927936, i64::MAX];
    for v in i8s.iter() {
        buf.write_i8(&mut arena, *v);
    }
    for v in i16s.iter() {
        buf.write_i16(&mut arena, *v);
    }
    for v in i32s.iter() {
        buf.write_i32(&mut arena, *v);
    }
    buf.write_bool(&mut arena, false);
    assert_eq!(buf.remaining(), 64 - 5 - 8 - 16 - 1);
    for v in i8s.iter() {
        assert_eq!(copy.read_i8(&arena), *v);
    }
    for v in i16s.iter() {
        assert_eq!(copy.read_i16(&arena), *v);
    }
    for v in i32s.iter() {
        assert_eq!(copy.read_i32(&arena), *v);
    }
    assert_eq!(copy.read_bool(&arena), false);
    assert_eq!(copy.remaining(), buf.remaining());

    let mut wide = arena.allocate(48);
    let mut wide_copy = wide;
    for v in i64s.iter() {
        wide.write_i64(&mut arena, *v);
    }
    wide.write_f32(&mut arena, f32::MIN.to_bits());
    wide.write_f64(&mut arena, f64::MAX.to_bits());
    for v in i64s.iter() {
        assert_eq!(wide_copy.read_i64(&arena), *v);
    }
    assert_eq!(f32::from_bits(wide_copy.read_f32(&arena)), f32::MIN);
    assert_eq!(f64::from_bits(wide_copy.read_f64(&arena)), f64::MAX);
    assert_eq!(wide_copy.remaining(), 48 - 32 - 12);
    // a cursor over no byte
    let none = arena.allocate(0);
    assert_eq!(none.remaining(), 0);
    assert!(none.fits_in(&arena));
}

#[test]
fn test_cursor_of_another_arena() {
    let mut large = Arena::new(64);
    let small = Arena::new(16);
    let buf = large.allocate(32);
    assert!(buf.fits_in(&large));
    assert!(!buf.fits_in(&small));
    large.allocate(64);
    // a cursor stays good when the arena grows
    assert!(buf.fits_in(&large));
    assert!(large.can_allocate(1 << 20));
    assert!(!large.can_allocate(usize::MAX));
    assert!(!Buf::new(2, 0, 0).fits_in(&large));
    assert!(Buf::new(1, 0, 64).fits_in(&large));
    assert!(!Buf::new(1, 0, 65).fits_in(&large));
}

#[test]
fn test_values_are_laid_out_lowest_byte_first() {
    let mut arena = Arena::new(16);
    let mut buf = arena.allocate(16);
    buf.write_i32(&mut arena, 0x0102_0304);
    buf.write_i16(&mut arena, -2);
    buf.write_i64(&mut arena, 1);
    assert_eq!(
        arena.load_bytes(0, 0, 14),
        vec![4, 3, 2, 1, 0xfe, 0xff, 1, 0, 0, 0, 0, 0, 0, 0]
    );
}

#[test]
fn test_growth_policy() {
    // nothing was handed out from the head yet: it is resized, not retired
    let mut arena = Arena::new(10);
    assert_eq!((arena.chunk_num(), arena.allocated_size(), arena.used_size()), (0, 10, 0));
    assert!(arena.need_grow(11));
    assert!(!arena.need_grow(10));
    arena.allocate(25);
    assert_eq!((arena.chunk_num(), arena.allocated_size(), arena.used_size()), (0, 25, 25));
    // the head is full: it is retired, and the new head has the page size
    arena.allocate(4);
    assert_eq!((arena.chunk_num(), arena.allocated_size(), arena.used_size()), (1, 35, 29));
    arena.allocate(6);
    assert_eq!((arena.chunk_num(), arena.allocated_size(), arena.used_size()), (1, 35, 35));
    // what is left of a retired head is not used
    arena.allocate(3);
    arena.allocate(8);
    assert_eq!((arena.chunk_num(), arena.allocated_size(), arena.used_size()), (3, 55, 46));
    assert_eq!(arena.chunk_len(0), Some(25));
    assert_eq!(arena.chunk_len(3), Some(10));
    assert_eq!(arena.chunk_len(4), None);
}

#[test]
fn test_allocations_of_one_size() {
    // as many chunks are retired as the allocations before the last one fill
    for (page, size, n) in [(4096usize, 2048usize, 1024usize), (100, 30, 10), (100, 100, 7), (7, 1, 50)]
    {
        let mut arena = Arena::new(page);
        for _ in 0..n {
            arena.allocate(size);
        }
        let per_page = page / size;
        assert_eq!(arena.chunk_num(), (n - 1) / per_page);
        assert_eq!(arena.allocated_size(), ((n - 1) / per_page + 1) * page);
        assert_eq!(arena.used_size(), n * size);
    }
    for (page, size, n) in [(4096usize, 8192usize, 1024usize), (10, 11, 3)] {
        let mut arena = Arena::new(page);
        for _ in 0..n {
            arena.allocate(size);
        }
        assert_eq!(arena.chunk_num(), n - 1);
        assert_eq!(arena.allocated_size(), n * size);
    }
}

#[test]
fn test_alloc_str() {
    let mut arena = Arena::new_with_aligned(8, 32);
    let a = arena.alloc_str("grüße");
    assert_eq!((a.chunk, a.offset), (0, 0));
    assert_eq!(arena.load_bytes(a.chunk, a.offset, 7), "grüße".as_bytes().to_vec());
    let b = arena.alloc_str("xy");
    assert_eq!((b.chunk, b.offset), (1, 0));
    let c = arena.alloc_str("");
    assert_eq!((c.chunk, c.offset), (1, 2));
    // the first string is where it was
    assert_eq!(arena.load_bytes(0, 0, 7), "grüße".as_bytes().to_vec());
    arena.store_bytes(0, 1, &[b'R']);
    assert_eq!(arena.load::<u32>(0, 0), u32::from_le_bytes([b'g', b'R', 0xc3, 0xbc]));
    arena.store::<i16>(1, 0, -1);
    assert_eq!(arena.load_bytes(1, 0, 2), vec![0xff, 0xff]);
}
