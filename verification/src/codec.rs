//! Byte layout of the fixed-width scalar types: little-endian, two's complement.
//!
//! Every buffer of the engine (arena chunks, column buffers) is a plain
//! sequence of bytes. A typed value is read from and written to such a buffer
//! through the functions of this module, and what they do is stated over
//! `encode` and `decode`, two pure functions that undo each other.

use vstd::prelude::*;

verus! {

/// `mem` with the bytes from `at` on replaced by `bytes`; the rest is kept.
pub open spec fn overlay(mem: Seq<u8>, at: int, bytes: Seq<u8>) -> Seq<u8> {
    Seq::new(
        mem.len(),
        |i: int|
            if at <= i < at + bytes.len() {
                bytes[i - at]
            } else {
                mem[i]
            },
    )
}

/// Reading back the range that `overlay` wrote gives the written bytes.
pub proof fn lemma_overlay_read(mem: Seq<u8>, at: int, bytes: Seq<u8>)
    requires
        0 <= at,
        at + bytes.len() <= mem.len(),
    ensures
        overlay(mem, at, bytes).len() == mem.len(),
        overlay(mem, at, bytes).subrange(at, at + bytes.len()) == bytes,
{
    assert(overlay(mem, at, bytes).subrange(at, at + bytes.len()) =~= bytes);
}

/// A range that does not meet the written one reads as before.
pub proof fn lemma_overlay_other(mem: Seq<u8>, at: int, bytes: Seq<u8>, from: int, to: int)
    requires
        0 <= from <= to <= mem.len(),
        to <= at || at + bytes.len() <= from,
    ensures
        overlay(mem, at, bytes).subrange(from, to) == mem.subrange(from, to),
{
    assert(overlay(mem, at, bytes).subrange(from, to) =~= mem.subrange(from, to));
}

/// The two bytes of `v`, lowest first.
pub open spec fn u16_le(v: u16) -> Seq<u8> {
    seq![(v % 256) as u8, (v / 256) as u8]
}

/// The number whose two bytes, lowest first, `b` starts with.
pub open spec fn le_u16(b: Seq<u8>) -> u16 {
    (b[0] as int + 256 * (b[1] as int)) as u16
}

/// The four bytes of `v`, lowest first.
pub open spec fn u32_le(v: u32) -> Seq<u8> {
    seq![
        (v % 256) as u8,
        (v / 0x100 % 256) as u8,
        (v / 0x1_0000 % 256) as u8,
        (v / 0x100_0000) as u8,
    ]
}

/// The number whose four bytes, lowest first, `b` starts with.
pub open spec fn le_u32(b: Seq<u8>) -> u32 {
    (b[0] as int + 0x100 * (b[1] as int) + 0x1_0000 * (b[2] as int)
        + 0x100_0000 * (b[3] as int)) as u32
}

/// The eight bytes of `v`, lowest first.
pub open spec fn u64_le(v: u64) -> Seq<u8> {
    seq![
        (v % 256) as u8,
        (v / 0x100 % 256) as u8,
        (v / 0x1_0000 % 256) as u8,
        (v / 0x100_0000 % 256) as u8,
        (v / 0x1_0000_0000 % 256) as u8,
        (v / 0x100_0000_0000 % 256) as u8,
        (v / 0x1_0000_0000_0000 % 256) as u8,
        (v / 0x100_0000_0000_0000) as u8,
    ]
}

/// The number whose eight bytes, lowest first, `b` starts with.
pub open spec fn le_u64(b: Seq<u8>) -> u64 {
    (b[0] as int + 0x100 * (b[1] as int) + 0x1_0000 * (b[2] as int) + 0x100_0000 * (b[3] as int)
        + 0x1_0000_0000 * (b[4] as int) + 0x100_0000_0000 * (b[5] as int) + 0x1_0000_0000_0000 * (
    b[6] as int) + 0x100_0000_0000_0000 * (b[7] as int)) as u64
}

/// The byte that holds `v` in two's complement.
pub open spec fn i8_bits(v: i8) -> u8 {
    if v >= 0 {
        v as u8
    } else {
        (v + 0x100) as u8
    }
}

/// The signed number that the byte `u` holds in two's complement.
pub open spec fn bits_i8(u: u8) -> i8 {
    if u < 0x80 {
        u as i8
    } else {
        (u - 0x100) as i8
    }
}

/// The 16 bits that hold `v` in two's complement.
pub open spec fn i16_bits(v: i16) -> u16 {
    if v >= 0 {
        v as u16
    } else {
        (v + 0x1_0000) as u16
    }
}

/// The signed number that the 16 bits `u` hold in two's complement.
pub open spec fn bits_i16(u: u16) -> i16 {
    if u < 0x8000 {
        u as i16
    } else {
        (u - 0x1_0000) as i16
    }
}

/// The 32 bits that hold `v` in two's complement.
pub open spec fn i32_bits(v: i32) -> u32 {
    if v >= 0 {
        v as u32
    } else {
        (v + 0x1_0000_0000) as u32
    }
}

/// The signed number that the 32 bits `u` hold in two's complement.
pub open spec fn bits_i32(u: u32) -> i32 {
    if u < 0x8000_0000 {
        u as i32
    } else {
        (u - 0x1_0000_0000) as i32
    }
}

/// The 64 bits that hold `v` in two's complement.
pub open spec fn i64_bits(v: i64) -> u64 {
    if v >= 0 {
        v as u64
    } else {
        (v + 0x1_0000_0000_0000_0000) as u64
    }
}

/// The signed number that the 64 bits `u` hold in two's complement.
pub open spec fn bits_i64(u: u64) -> i64 {
    if u < 0x8000_0000_0000_0000 {
        u as i64
    } else {
        (u - 0x1_0000_0000_0000_0000) as i64
    }
}

/// The eight bytes of a number, each weighted by its place, add up to it.
proof fn lemma_u64_bytes(v: u64)
    ensures
        le_u64(u64_le(v)) == v,
{
    assert(v == (v % 256) + 0x100 * (v / 0x100 % 256) + 0x1_0000 * (v / 0x1_0000 % 256) + 0x100_0000
        * (v / 0x100_0000 % 256) + 0x1_0000_0000 * (v / 0x1_0000_0000 % 256) + 0x100_0000_0000 * (v
        / 0x100_0000_0000 % 256) + 0x1_0000_0000_0000 * (v / 0x1_0000_0000_0000 % 256)
        + 0x100_0000_0000_0000 * (v / 0x100_0000_0000_0000)) by (bit_vector);
}

/// A type whose values take a fixed number of bytes in a buffer.
pub trait Scalar: Copy + Sized {
    /// Number of bytes of one value.
    spec fn width() -> nat;

    /// The bytes that stand for `self`.
    spec fn encode(self) -> Seq<u8>;

    /// The value that the first `width()` bytes of `bytes` stand for.
    spec fn decode(bytes: Seq<u8>) -> Self;

    /// An encoded value has `width()` bytes, and decoding them gives the
    /// value back.
    proof fn lemma_round_trip(v: Self)
        ensures
            v.encode().len() == Self::width(),
            Self::decode(v.encode()) == v,
    ;

    /// Number of bytes of one value.
    fn size() -> (n: usize)
        ensures
            n == Self::width(),
            0 < n,
    ;

    /// Reads the value that lies at `at` in `mem`.
    fn load(mem: &Vec<u8>, at: usize) -> (v: Self)
        requires
            at + Self::width() <= mem.len(),
        ensures
            v == Self::decode(mem@.subrange(at as int, at + Self::width())),
    ;

    /// Writes `self` at `at` into `mem`; no other byte changes.
    fn store(self, mem: &mut Vec<u8>, at: usize)
        requires
            at + Self::width() <= old(mem).len(),
        ensures
            final(mem)@ == overlay(old(mem)@, at as int, self.encode()),
    ;
}

fn load_u16(mem: &Vec<u8>, at: usize) -> (v: u16)
    requires
        at + 2 <= mem.len(),
    ensures
        v == le_u16(mem@.subrange(at as int, at + 2)),
{
    let b0: u16 = mem[at] as u16;
    let b1: u16 = mem[at + 1] as u16;
    b0 + 256 * b1
}

fn store_u16(v: u16, mem: &mut Vec<u8>, at: usize)
    requires
        at + 2 <= old(mem).len(),
    ensures
        final(mem)@ == overlay(old(mem)@, at as int, u16_le(v)),
{
    mem[at] = (v % 256) as u8;
    mem[at + 1] = (v / 256) as u8;
    assert(mem@ =~= overlay(old(mem)@, at as int, u16_le(v)));
}

fn load_u32(mem: &Vec<u8>, at: usize) -> (v: u32)
    requires
        at + 4 <= mem.len(),
    ensures
        v == le_u32(mem@.subrange(at as int, at + 4)),
{
    let b0: u32 = mem[at] as u32;
    let b1: u32 = mem[at + 1] as u32;
    let b2: u32 = mem[at + 2] as u32;
    let b3: u32 = mem[at + 3] as u32;
    b0 + 0x100 * b1 + 0x1_0000 * b2 + 0x100_0000 * b3
}

fn store_u32(v: u32, mem: &mut Vec<u8>, at: usize)
    requires
        at + 4 <= old(mem).len(),
    ensures
        final(mem)@ == overlay(old(mem)@, at as int, u32_le(v)),
{
    mem[at] = (v % 256) as u8;
    mem[at + 1] = (v / 0x100 % 256) as u8;
    mem[at + 2] = (v / 0x1_0000 % 256) as u8;
    mem[at + 3] = (v / 0x100_0000) as u8;
    assert(mem@ =~= overlay(old(mem)@, at as int, u32_le(v)));
}

fn load_u64(mem: &Vec<u8>, at: usize) -> (v: u64)
    requires
        at + 8 <= mem.len(),
    ensures
        v == le_u64(mem@.subrange(at as int, at + 8)),
{
    let b0: u64 = mem[at] as u64;
    let b1: u64 = mem[at + 1] as u64;
    let b2: u64 = mem[at + 2] as u64;
    let b3: u64 = mem[at + 3] as u64;
    let b4: u64 = mem[at + 4] as u64;
    let b5: u64 = mem[at + 5] as u64;
    let b6: u64 = mem[at + 6] as u64;
    let b7: u64 = mem[at + 7] as u64;
    b0 + 0x100 * b1 + 0x1_0000 * b2 + 0x100_0000 * b3 + 0x1_0000_0000 * b4 + 0x100_0000_0000 * b5
        + 0x1_0000_0000_0000 * b6 + 0x100_0000_0000_0000 * b7
}

fn store_u64(v: u64, mem: &mut Vec<u8>, at: usize)
    requires
        at + 8 <= old(mem).len(),
    ensures
        final(mem)@ == overlay(old(mem)@, at as int, u64_le(v)),
{
    mem[at] = (v % 256) as u8;
    mem[at + 1] = (v / 0x100 % 256) as u8;
    mem[at + 2] = (v / 0x1_0000 % 256) as u8;
    mem[at + 3] = (v / 0x100_0000 % 256) as u8;
    mem[at + 4] = (v / 0x1_0000_0000 % 256) as u8;
    mem[at + 5] = (v / 0x100_0000_0000 % 256) as u8;
    mem[at + 6] = (v / 0x1_0000_0000_0000 % 256) as u8;
    mem[at + 7] = (v / 0x100_0000_0000_0000) as u8;
    assert(mem@ =~= overlay(old(mem)@, at as int, u64_le(v)));
}

impl Scalar for bool {
    open spec fn width() -> nat {
        1
    }

    open spec fn encode(self) -> Seq<u8> {
        seq![if self { 1u8 } else { 0u8 }]
    }

    open spec fn decode(bytes: Seq<u8>) -> bool {
        bytes[0] != 0
    }

    proof fn lemma_round_trip(v: bool) {
    }

    fn size() -> (n: usize) {
        1
    }

    fn load(mem: &Vec<u8>, at: usize) -> (v: bool) {
        mem[at] != 0
    }

    fn store(self, mem: &mut Vec<u8>, at: usize) {
        mem[at] = if self { 1 } else { 0 };
        assert(mem@ =~= overlay(old(mem)@, at as int, self.encode()));
    }
}

impl Scalar for i8 {
    open spec fn width() -> nat {
        1
    }

    open spec fn encode(self) -> Seq<u8> {
        seq![i8_bits(self)]
    }

    open spec fn decode(bytes: Seq<u8>) -> i8 {
        bits_i8(bytes[0])
    }

    proof fn lemma_round_trip(v: i8) {
    }

    fn size() -> (n: usize) {
        1
    }

    fn load(mem: &Vec<u8>, at: usize) -> (v: i8) {
        let u: u8 = mem[at];
        if u < 0x80 {
            u as i8
        } else {
            (u as i16 - 0x100) as i8
        }
    }

    fn store(self, mem: &mut Vec<u8>, at: usize) {
        mem[at] = if self >= 0 { self as u8 } else { (self as i16 + 0x100) as u8 };
        assert(mem@ =~= overlay(old(mem)@, at as int, self.encode()));
    }
}

impl Scalar for i16 {
    open spec fn width() -> nat {
        2
    }

    open spec fn encode(self) -> Seq<u8> {
        u16_le(i16_bits(self))
    }

    open spec fn decode(bytes: Seq<u8>) -> i16 {
        bits_i16(le_u16(bytes))
    }

    proof fn lemma_round_trip(v: i16) {
    }

    fn size() -> (n: usize) {
        2
    }

    fn load(mem: &Vec<u8>, at: usize) -> (v: i16) {
        let u: u16 = load_u16(mem, at);
        if u < 0x8000 {
            u as i16
        } else {
            (u as i32 - 0x1_0000) as i16
        }
    }

    fn store(self, mem: &mut Vec<u8>, at: usize) {
        let u: u16 = if self >= 0 { self as u16 } else { (self as i32 + 0x1_0000) as u16 };
        store_u16(u, mem, at);
    }
}

impl Scalar for i32 {
    open spec fn width() -> nat {
        4
    }

    open spec fn encode(self) -> Seq<u8> {
        u32_le(i32_bits(self))
    }

    open spec fn decode(bytes: Seq<u8>) -> i32 {
        bits_i32(le_u32(bytes))
    }

    proof fn lemma_round_trip(v: i32) {
    }

    fn size() -> (n: usize) {
        4
    }

    fn load(mem: &Vec<u8>, at: usize) -> (v: i32) {
        let u: u32 = load_u32(mem, at);
        if u < 0x8000_0000 {
            u as i32
        } else {
            (u as i64 - 0x1_0000_0000) as i32
        }
    }

    fn store(self, mem: &mut Vec<u8>, at: usize) {
        let u: u32 = if self >= 0 { self as u32 } else { (self as i64 + 0x1_0000_0000) as u32 };
        store_u32(u, mem, at);
    }
}

impl Scalar for i64 {
    open spec fn width() -> nat {
        8
    }

    open spec fn encode(self) -> Seq<u8> {
        u64_le(i64_bits(self))
    }

    open spec fn decode(bytes: Seq<u8>) -> i64 {
        bits_i64(le_u64(bytes))
    }

    proof fn lemma_round_trip(v: i64) {
        lemma_u64_bytes(i64_bits(v));
    }

    fn size() -> (n: usize) {
        8
    }

    fn load(mem: &Vec<u8>, at: usize) -> (v: i64) {
        let u: u64 = load_u64(mem, at);
        if u < 0x8000_0000_0000_0000 {
            u as i64
        } else {
            (u as i128 - 0x1_0000_0000_0000_0000) as i64
        }
    }

    fn store(self, mem: &mut Vec<u8>, at: usize) {
        let u: u64 = if self >= 0 {
            self as u64
        } else {
            (self as i128 + 0x1_0000_0000_0000_0000) as u64
        };
        store_u64(u, mem, at);
    }
}

impl Scalar for u32 {
    open spec fn width() -> nat {
        4
    }

    open spec fn encode(self) -> Seq<u8> {
        u32_le(self)
    }

    open spec fn decode(bytes: Seq<u8>) -> u32 {
        le_u32(bytes)
    }

    proof fn lemma_round_trip(v: u32) {
    }

    fn size() -> (n: usize) {
        4
    }

    fn load(mem: &Vec<u8>, at: usize) -> (v: u32) {
        load_u32(mem, at)
    }

    fn store(self, mem: &mut Vec<u8>, at: usize) {
        store_u32(self, mem, at);
    }
}

impl Scalar for u64 {
    open spec fn width() -> nat {
        8
    }

    open spec fn encode(self) -> Seq<u8> {
        u64_le(self)
    }

    open spec fn decode(bytes: Seq<u8>) -> u64 {
        le_u64(bytes)
    }

    proof fn lemma_round_trip(v: u64) {
        lemma_u64_bytes(v);
    }

    fn size() -> (n: usize) {
        8
    }

    fn load(mem: &Vec<u8>, at: usize) -> (v: u64) {
        load_u64(mem, at)
    }

    fn store(self, mem: &mut Vec<u8>, at: usize) {
        store_u64(self, mem, at);
    }
}

} // verus!
