//! Cursor over a range of bytes that an arena handed out.

use vstd::prelude::*;
use crate::codec::{lemma_overlay_other, lemma_overlay_read, overlay, Scalar};
use crate::memutil::arena::Arena;

verus! {

/// What a cursor stands for.
pub struct BufView {
    /// Number of the chunk that holds the range.
    pub chunk: nat,
    /// Offset of the range's first byte in the chunk.
    pub start: nat,
    /// Offset just behind the range's last byte.
    pub limit: nat,
    /// Bytes of the range that were read or written through this cursor.
    pub pos: nat,
}

impl BufView {
    /// Offset in the chunk of the byte that is read or written next.
    pub open spec fn cursor(self) -> int {
        (self.start + self.pos) as int
    }

    /// Bytes between the cursor and the end of the range.
    pub open spec fn remaining(self) -> int {
        self.limit - self.start - self.pos
    }

    /// The cursor moved on by `n` bytes.
    pub open spec fn advance(self, n: nat) -> BufView {
        BufView { pos: self.pos + n, ..self }
    }
}

/// Whether the range of `b` lies in the chunks `mem`, with the cursor inside
/// it.
pub open spec fn fits(b: BufView, mem: Seq<Seq<u8>>) -> bool {
    &&& b.chunk < mem.len()
    &&& b.start + b.pos <= b.limit
    &&& b.limit <= mem[b.chunk as int].len()
}

/// The chunks after `bytes` were written at the cursor of `b`.
pub open spec fn written(mem: Seq<Seq<u8>>, b: BufView, bytes: Seq<u8>) -> Seq<Seq<u8>> {
    mem.update(b.chunk as int, overlay(mem[b.chunk as int], b.cursor(), bytes))
}

/// The `n` bytes at the cursor of `b`.
pub open spec fn read_at(mem: Seq<Seq<u8>>, b: BufView, n: nat) -> Seq<u8> {
    mem[b.chunk as int].subrange(b.cursor(), b.cursor() + n)
}

/// A value written through a cursor is read back unchanged through a cursor
/// that stands where the writing one stood: the same cursor before it moved,
/// or a copy of it.
pub proof fn lemma_write_read_round_trip<T: Scalar>(mem: Seq<Seq<u8>>, b: BufView, v: T)
    requires
        fits(b, mem),
        b.remaining() >= T::width(),
    ensures
        fits(b.advance(T::width()), written(mem, b, v.encode())),
        T::decode(read_at(written(mem, b, v.encode()), b, T::width())) == v,
{
    T::lemma_round_trip(v);
    lemma_overlay_read(mem[b.chunk as int], b.cursor(), v.encode());
}

/// A write leaves what lies before the writing cursor as it was: a copy that
/// lags behind still reads every value written earlier.
pub proof fn lemma_write_keeps_earlier(
    mem: Seq<Seq<u8>>,
    b: BufView,
    bytes: Seq<u8>,
    earlier: BufView,
    n: nat,
)
    requires
        fits(b, mem),
        b.remaining() >= bytes.len(),
        fits(earlier, mem),
        earlier.chunk != b.chunk || earlier.cursor() + n <= b.cursor(),
        earlier.remaining() >= n,
    ensures
        read_at(written(mem, b, bytes), earlier, n) == read_at(mem, earlier, n),
{
    if earlier.chunk == b.chunk {
        lemma_overlay_other(
            mem[b.chunk as int],
            b.cursor(),
            bytes,
            earlier.cursor(),
            earlier.cursor() + n,
        );
    }
}

/// A cursor that reads and writes the range `[start, limit)` of one chunk, one
/// value after the other. A copy is a second cursor over the same bytes with a
/// position of its own.
#[derive(Clone, Copy, Debug)]
pub struct Buf {
    chunk: usize,
    start: usize,
    limit: usize,
    pos: usize,
}

impl View for Buf {
    type V = BufView;

    closed spec fn view(&self) -> BufView {
        BufView {
            chunk: self.chunk as nat,
            start: self.start as nat,
            limit: self.limit as nat,
            pos: self.pos as nat,
        }
    }
}

impl Buf {
    /// A cursor at the start of the range `[start, limit)` of chunk number
    /// `chunk`.
    pub fn new(chunk: usize, start: usize, limit: usize) -> (buf: Buf)
        requires
            start <= limit,
        ensures
            buf@ == (BufView { chunk: chunk as nat, start: start as nat, limit: limit as nat,
                pos: 0 }),
    {
        Buf { chunk, start, limit, pos: 0 }
    }

    /// Whether the cursor's range lies in a chunk of `arena`, with the cursor
    /// inside it.
    pub fn fits_in(&self, arena: &Arena) -> (b: bool)
        requires
            arena.wf(),
        ensures
            b == fits(self@, arena.memory()),
    {
        if self.start > self.limit || self.pos > self.limit - self.start {
            return false;
        }
        match arena.chunk_len(self.chunk) {
            Some(len) => self.limit <= len,
            None => false,
        }
    }

    /// Bytes between the cursor and the end of the range.
    pub fn remaining(&self) -> (n: usize)
        requires
            self@.start + self@.pos <= self@.limit,
        ensures
            n == self@.remaining(),
    {
        self.limit - self.start - self.pos
    }

    /// Writes `v` at the cursor and moves the cursor behind it.
    fn put<T: Scalar>(&mut self, arena: &mut Arena, v: T)
        requires
            old(arena).wf(),
            fits(old(self)@, old(arena).memory()),
            old(self)@.remaining() >= T::width(),
        ensures
            final(self)@ == old(self)@.advance(T::width()),
            final(arena).wf(),
            final(arena)@ == old(arena)@,
            final(arena).memory() == written(old(arena).memory(), old(self)@, v.encode()),
            fits(final(self)@, final(arena).memory()),
    {
        arena.store(self.chunk, self.start + self.pos, v);
        self.pos = self.pos + T::size();
    }

    /// Reads the value at the cursor and moves the cursor behind it.
    fn get<T: Scalar>(&mut self, arena: &Arena) -> (v: T)
        requires
            arena.wf(),
            fits(old(self)@, arena.memory()),
            old(self)@.remaining() >= T::width(),
        ensures
            final(self)@ == old(self)@.advance(T::width()),
            v == T::decode(read_at(arena.memory(), old(self)@, T::width())),
            fits(final(self)@, arena.memory()),
    {
        let v: T = arena.load(self.chunk, self.start + self.pos);
        self.pos = self.pos + T::size();
        v
    }

    /// Writes a truth value at the cursor and moves the cursor
    /// 1 byte on.
    pub fn write_bool(&mut self, arena: &mut Arena, v: bool)
        requires
            old(arena).wf(),
            fits(old(self)@, old(arena).memory()),
            old(self)@.remaining() >= 1,
        ensures
            final(self)@ == old(self)@.advance(1),
            final(arena).wf(),
            final(arena)@ == old(arena)@,
            final(arena).memory() == written(old(arena).memory(), old(self)@, v.encode()),
            fits(final(self)@, final(arena).memory()),
    {
        self.put::<bool>(arena, v);
    }

    /// Reads a truth value at the cursor and moves the cursor
    /// 1 byte on.
    pub fn read_bool(&mut self, arena: &Arena) -> (v: bool)
        requires
            arena.wf(),
            fits(old(self)@, arena.memory()),
            old(self)@.remaining() >= 1,
        ensures
            final(self)@ == old(self)@.advance(1),
            v == <bool as Scalar>::decode(read_at(arena.memory(), old(self)@, 1)),
            fits(final(self)@, arena.memory()),
    {
        self.get::<bool>(arena)
    }

    /// Writes an 8-bit integer at the cursor and moves the cursor
    /// 1 byte on.
    pub fn write_i8(&mut self, arena: &mut Arena, v: i8)
        requires
            old(arena).wf(),
            fits(old(self)@, old(arena).memory()),
            old(self)@.remaining() >= 1,
        ensures
            final(self)@ == old(self)@.advance(1),
            final(arena).wf(),
            final(arena)@ == old(arena)@,
            final(arena).memory() == written(old(arena).memory(), old(self)@, v.encode()),
            fits(final(self)@, final(arena).memory()),
    {
        self.put::<i8>(arena, v);
    }

    /// Reads an 8-bit integer at the cursor and moves the cursor
    /// 1 byte on.
    pub fn read_i8(&mut self, arena: &Arena) -> (v: i8)
        requires
            arena.wf(),
            fits(old(self)@, arena.memory()),
            old(self)@.remaining() >= 1,
        ensures
            final(self)@ == old(self)@.advance(1),
            v == <i8 as Scalar>::decode(read_at(arena.memory(), old(self)@, 1)),
            fits(final(self)@, arena.memory()),
    {
        self.get::<i8>(arena)
    }

    /// Writes a 16-bit integer at the cursor and moves the cursor
    /// 2 bytes on.
    pub fn write_i16(&mut self, arena: &mut Arena, v: i16)
        requires
            old(arena).wf(),
            fits(old(self)@, old(arena).memory()),
            old(self)@.remaining() >= 2,
        ensures
            final(self)@ == old(self)@.advance(2),
            final(arena).wf(),
            final(arena)@ == old(arena)@,
            final(arena).memory() == written(old(arena).memory(), old(self)@, v.encode()),
            fits(final(self)@, final(arena).memory()),
    {
        self.put::<i16>(arena, v);
    }

    /// Reads a 16-bit integer at the cursor and moves the cursor
    /// 2 bytes on.
    pub fn read_i16(&mut self, arena: &Arena) -> (v: i16)
        requires
            arena.wf(),
            fits(old(self)@, arena.memory()),
            old(self)@.remaining() >= 2,
        ensures
            final(self)@ == old(self)@.advance(2),
            v == <i16 as Scalar>::decode(read_at(arena.memory(), old(self)@, 2)),
            fits(final(self)@, arena.memory()),
    {
        self.get::<i16>(arena)
    }

    /// Writes a 32-bit integer at the cursor and moves the cursor
    /// 4 bytes on.
    pub fn write_i32(&mut self, arena: &mut Arena, v: i32)
        requires
            old(arena).wf(),
            fits(old(self)@, old(arena).memory()),
            old(self)@.remaining() >= 4,
        ensures
            final(self)@ == old(self)@.advance(4),
            final(arena).wf(),
            final(arena)@ == old(arena)@,
            final(arena).memory() == written(old(arena).memory(), old(self)@, v.encode()),
            fits(final(self)@, final(arena).memory()),
    {
        self.put::<i32>(arena, v);
    }

    /// Reads a 32-bit integer at the cursor and moves the cursor
    /// 4 bytes on.
    pub fn read_i32(&mut self, arena: &Arena) -> (v: i32)
        requires
            arena.wf(),
            fits(old(self)@, arena.memory()),
            old(self)@.remaining() >= 4,
        ensures
            final(self)@ == old(self)@.advance(4),
            v == <i32 as Scalar>::decode(read_at(arena.memory(), old(self)@, 4)),
            fits(final(self)@, arena.memory()),
    {
        self.get::<i32>(arena)
    }

    /// Writes a 64-bit integer at the cursor and moves the cursor
    /// 8 bytes on.
    pub fn write_i64(&mut self, arena: &mut Arena, v: i64)
        requires
            old(arena).wf(),
            fits(old(self)@, old(arena).memory()),
            old(self)@.remaining() >= 8,
        ensures
            final(self)@ == old(self)@.advance(8),
            final(arena).wf(),
            final(arena)@ == old(arena)@,
            final(arena).memory() == written(old(arena).memory(), old(self)@, v.encode()),
            fits(final(self)@, final(arena).memory()),
    {
        self.put::<i64>(arena, v);
    }

    /// Reads a 64-bit integer at the cursor and moves the cursor
    /// 8 bytes on.
    pub fn read_i64(&mut self, arena: &Arena) -> (v: i64)
        requires
            arena.wf(),
            fits(old(self)@, arena.memory()),
            old(self)@.remaining() >= 8,
        ensures
            final(self)@ == old(self)@.advance(8),
            v == <i64 as Scalar>::decode(read_at(arena.memory(), old(self)@, 8)),
            fits(final(self)@, arena.memory()),
    {
        self.get::<i64>(arena)
    }

    /// Writes a 32-bit float, given by its bits, at the cursor and moves the
    /// cursor 4 bytes on.
    pub fn write_f32(&mut self, arena: &mut Arena, bits: u32)
        requires
            old(arena).wf(),
            fits(old(self)@, old(arena).memory()),
            old(self)@.remaining() >= 4,
        ensures
            final(self)@ == old(self)@.advance(4),
            final(arena).wf(),
            final(arena)@ == old(arena)@,
            final(arena).memory() == written(old(arena).memory(), old(self)@, bits.encode()),
            fits(final(self)@, final(arena).memory()),
    {
        self.put::<u32>(arena, bits);
    }

    /// Reads a 32-bit float, given by its bits, at the cursor and moves the
    /// cursor 4 bytes on.
    pub fn read_f32(&mut self, arena: &Arena) -> (bits: u32)
        requires
            arena.wf(),
            fits(old(self)@, arena.memory()),
            old(self)@.remaining() >= 4,
        ensures
            final(self)@ == old(self)@.advance(4),
            bits == <u32 as Scalar>::decode(read_at(arena.memory(), old(self)@, 4)),
            fits(final(self)@, arena.memory()),
    {
        self.get::<u32>(arena)
    }

    /// Writes a 64-bit float, given by its bits, at the cursor and moves the
    /// cursor 8 bytes on.
    pub fn write_f64(&mut self, arena: &mut Arena, bits: u64)
        requires
            old(arena).wf(),
            fits(old(self)@, old(arena).memory()),
            old(self)@.remaining() >= 8,
        ensures
            final(self)@ == old(self)@.advance(8),
            final(arena).wf(),
            final(arena)@ == old(arena)@,
            final(arena).memory() == written(old(arena).memory(), old(self)@, bits.encode()),
            fits(final(self)@, final(arena).memory()),
    {
        self.put::<u64>(arena, bits);
    }

    /// Reads a 64-bit float, given by its bits, at the cursor and moves the
    /// cursor 8 bytes on.
    pub fn read_f64(&mut self, arena: &Arena) -> (bits: u64)
        requires
            arena.wf(),
            fits(old(self)@, arena.memory()),
            old(self)@.remaining() >= 8,
        ensures
            final(self)@ == old(self)@.advance(8),
            bits == <u64 as Scalar>::decode(read_at(arena.memory(), old(self)@, 8)),
            fits(final(self)@, arena.memory()),
    {
        self.get::<u64>(arena)
    }
}

} // verus!
