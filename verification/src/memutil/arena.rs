//! Arena for variable-sized data.
//!
//! The arena hands out ranges of bytes from a current chunk, the head, and
//! starts a new chunk when the head has no room left. Nothing is given back
//! before the arena itself goes away. A range is named by the number of its
//! chunk and its offsets in that chunk, never by an address, so that every
//! access can be held to the chunk's bounds.

use vstd::prelude::*;
use vstd::string::StringSliceAdditionalSpecFns;
use crate::codec::{overlay, Scalar};
use crate::memutil::buffer::{Buf, BufView};

verus! {

/// Alignment of the chunks where none is asked for.
pub const DEFAULT_ALIGNED_SIZE: usize = 16;

/// The allocation state of an arena.
pub struct ArenaState {
    /// Size of a chunk that is made for a request which fits in it.
    pub page_size: nat,
    /// Alignment that the chunks were asked with.
    pub aligned_size: nat,
    /// Size of the head chunk.
    pub head_size: nat,
    /// Bytes of the head chunk that are handed out.
    pub offset: nat,
    /// Sizes of the retired chunks, oldest first.
    pub retired: Seq<nat>,
    /// Bytes reserved in all chunks together.
    pub allocated: nat,
    /// Bytes handed out from the retired chunks.
    pub used: nat,
}

/// Place of a string that the arena holds.
#[derive(Clone, Copy, Debug)]
pub struct Addr {
    /// Number of the chunk.
    pub chunk: usize,
    /// Offset of the first byte in the chunk.
    pub offset: usize,
}

/// Region-based allocator: chunks of bytes that are freed all at once.
pub struct Arena {
    default_page_size: usize,
    aligned_size: usize,
    /// The retired chunks, oldest first, and after them the head.
    chunks: Vec<Vec<u8>>,
    /// Bytes of the head that are handed out.
    offset: usize,
    allocated_size: usize,
    used_size: usize,
}

/// `n` bytes of zero.
pub open spec fn zeros(n: nat) -> Seq<u8> {
    Seq::new(n, |i: int| 0u8)
}

/// Sum of the numbers in `sizes`.
pub open spec fn total(sizes: Seq<nat>) -> nat
    decreases sizes.len(),
{
    if sizes.len() == 0 {
        0
    } else {
        total(sizes.drop_last()) + sizes.last()
    }
}

/// Size of the chunk that is made when `size` bytes do not fit in the head.
pub open spec fn grow_size(page_size: nat, size: nat) -> nat {
    if page_size >= size {
        page_size
    } else {
        size
    }
}

/// Whether `size` more bytes do not fit in the head.
pub open spec fn needs_grow(s: ArenaState, size: nat) -> bool {
    s.head_size - s.offset < size
}

/// The state before `size` bytes are taken from the head: `s` itself where
/// they fit; else, where nothing was handed out from the head yet, `s` with
/// the head resized; else `s` with the head retired and a new head.
pub open spec fn grown(s: ArenaState, size: nat) -> ArenaState {
    if !needs_grow(s, size) {
        s
    } else if s.offset == 0 {
        ArenaState {
            head_size: grow_size(s.page_size, size),
            allocated: (s.allocated - s.head_size + grow_size(s.page_size, size)) as nat,
            ..s
        }
    } else {
        ArenaState {
            head_size: grow_size(s.page_size, size),
            offset: 0,
            retired: s.retired.push(s.head_size),
            allocated: s.allocated + grow_size(s.page_size, size),
            used: s.used + s.offset,
            ..s
        }
    }
}

/// The state after `size` bytes were handed out.
pub open spec fn alloc_step(s: ArenaState, size: nat) -> ArenaState {
    ArenaState { offset: grown(s, size).offset + size, ..grown(s, size) }
}

/// The chunks' bytes before `size` bytes are taken from the head, as `grown`
/// has the state: an enlarged head keeps its bytes and gains zeros, a new head
/// is all zeros.
pub open spec fn grown_memory(mem: Seq<Seq<u8>>, s: ArenaState, size: nat) -> Seq<Seq<u8>> {
    if !needs_grow(s, size) {
        mem
    } else if s.offset == 0 {
        mem.update(
            mem.len() - 1,
            mem.last() + zeros((grow_size(s.page_size, size) - s.head_size) as nat),
        )
    } else {
        mem.push(zeros(grow_size(s.page_size, size)))
    }
}

/// The state after `n` times `size` bytes were handed out.
pub open spec fn alloc_repeat(s: ArenaState, size: nat, n: nat) -> ArenaState
    decreases n,
{
    if n == 0 {
        s
    } else {
        alloc_step(alloc_repeat(s, size, (n - 1) as nat), size)
    }
}

/// Allocations of one size that is larger than a page take a chunk each: of
/// an arena that was not used before, the first takes the resized head, and
/// every further one retires the head. After `n` of them, `n - 1` chunks are
/// retired and `n` times the size is reserved.
pub proof fn lemma_large_allocations(page_size: nat, aligned_size: nat, size: nat, n: nat)
    requires
        size > page_size,
        n >= 1,
    ensures
        alloc_repeat(Arena::fresh(page_size, aligned_size), size, n).retired.len() == n - 1,
        alloc_repeat(Arena::fresh(page_size, aligned_size), size, n).allocated == n * size,
        alloc_repeat(Arena::fresh(page_size, aligned_size), size, n).head_size == size,
        alloc_repeat(Arena::fresh(page_size, aligned_size), size, n).offset == size,
        alloc_repeat(Arena::fresh(page_size, aligned_size), size, n).page_size == page_size,
    decreases n,
{
    let fresh = Arena::fresh(page_size, aligned_size);
    if n == 1 {
        assert(alloc_repeat(fresh, size, 0) == fresh);
    } else {
        lemma_large_allocations(page_size, aligned_size, size, (n - 1) as nat);
        assert(n * size == (n - 1) * size + size) by (nonlinear_arith);
    }
}

/// Number of allocations of `size` bytes that fit in one page.
pub open spec fn per_page(page_size: nat, size: nat) -> int {
    (page_size / size) as int
}

/// Allocations of one size that fits in a page fill the pages one after the
/// other: a page takes as many as fit in it, and the next allocation retires
/// it. After `n` of them on an arena that was not used before, as many chunks
/// are retired as `n - 1` allocations fill, and one page more than that is
/// reserved.
pub proof fn lemma_small_allocations(page_size: nat, aligned_size: nat, size: nat, n: nat)
    requires
        0 < size <= page_size,
        n >= 1,
    ensures
        per_page(page_size, size) >= 1,
        alloc_repeat(Arena::fresh(page_size, aligned_size), size, n).retired.len() == (n - 1)
            / per_page(page_size, size),
        alloc_repeat(Arena::fresh(page_size, aligned_size), size, n).allocated == ((n - 1)
            / per_page(page_size, size) + 1) * page_size,
        alloc_repeat(Arena::fresh(page_size, aligned_size), size, n).offset == ((n - 1) % per_page(
            page_size,
            size,
        ) + 1) * size,
        alloc_repeat(Arena::fresh(page_size, aligned_size), size, n).head_size == page_size,
        alloc_repeat(Arena::fresh(page_size, aligned_size), size, n).page_size == page_size,
    decreases n,
{
    let fresh = Arena::fresh(page_size, aligned_size);
    let k = per_page(page_size, size);
    assert(k >= 1 && k * size <= page_size < (k + 1) * size) by (nonlinear_arith)
        requires
            0 < size <= page_size,
            k == (page_size / size) as int,
    ;
    if n == 1 {
        assert(alloc_repeat(fresh, size, 0) == fresh);
        assert(0int / k == 0 && 0int % k == 0) by (nonlinear_arith)
            requires
                k >= 1,
        ;
        assert((0 + 1) * size == size) by (nonlinear_arith);
        assert((0 + 1) * page_size == page_size) by (nonlinear_arith);
    } else {
        lemma_small_allocations(page_size, aligned_size, size, (n - 1) as nat);
        let before = alloc_repeat(fresh, size, (n - 1) as nat);
        let q = (n - 2) / k;
        let r = (n - 2) % k;
        assert(n - 2 == q * k + r && 0 <= r < k && 0 <= q) by (nonlinear_arith)
            requires
                k >= 1,
                n >= 2,
                q == (n - 2) / k,
                r == (n - 2) % k,
        ;
        if r + 1 < k {
            // the page has room for one more
            assert((r + 2) * size <= page_size) by (nonlinear_arith)
                requires
                    r + 2 <= k,
                    k * size <= page_size,
                    0 < size,
            ;
            assert((r + 2) * size == (r + 1) * size + size) by (nonlinear_arith);
            vstd::arithmetic::div_mod::lemma_fundamental_div_mod_converse(n - 1, k, q, r + 1);
        } else {
            // the page is full
            assert((r + 1) * size + size > page_size) by (nonlinear_arith)
                requires
                    r + 1 == k,
                    page_size < (k + 1) * size,
            ;
            assert((r + 1) * size > 0) by (nonlinear_arith)
                requires
                    r >= 0,
                    size > 0,
            ;
            assert(n - 1 == (q + 1) * k + 0) by (nonlinear_arith)
                requires
                    n - 2 == q * k + r,
                    r + 1 == k,
            ;
            vstd::arithmetic::div_mod::lemma_fundamental_div_mod_converse(n - 1, k, q + 1, 0);
            assert((0 + 1) * size == size) by (nonlinear_arith);
            assert((q + 1 + 1) * page_size == (q + 1) * page_size + page_size) by (nonlinear_arith);
        }
    }
}

impl View for Arena {
    type V = ArenaState;

    closed spec fn view(&self) -> ArenaState {
        ArenaState {
            page_size: self.default_page_size as nat,
            aligned_size: self.aligned_size as nat,
            head_size: self.chunks@.last()@.len(),
            offset: self.offset as nat,
            retired: Seq::new((self.chunks@.len() - 1) as nat, |i: int| self.chunks@[i]@.len()),
            allocated: self.allocated_size as nat,
            used: self.used_size as nat,
        }
    }
}

impl Arena {
    /// The bytes of every chunk: the retired ones, oldest first, then the head.
    pub closed spec fn memory(&self) -> Seq<Seq<u8>> {
        Seq::new(self.chunks@.len(), |i: int| self.chunks@[i]@)
    }

    /// What holds of every arena: there is a head, no more is handed out than
    /// it holds, and the counters agree with the chunks.
    pub closed spec fn wf(&self) -> bool {
        &&& self.chunks@.len() >= 1
        &&& self.offset <= self.chunks@.last()@.len()
        &&& self.allocated_size == total(self@.retired) + self@.head_size
        &&& self.used_size <= total(self@.retired)
    }

    /// The chunks' sizes are those of the state, and the counters are
    /// consistent.
    pub proof fn lemma_wf(&self)
        requires
            self.wf(),
        ensures
            self.memory().len() == self@.retired.len() + 1,
            forall|i: int|
                0 <= i < self@.retired.len() ==> (#[trigger] self.memory()[i]).len()
                    == self@.retired[i],
            self.memory().last().len() == self@.head_size,
            self@.offset <= self@.head_size,
            self@.allocated == total(self@.retired) + self@.head_size,
            self@.used <= total(self@.retired),
            self@.allocated <= usize::MAX,
            self.memory().len() <= usize::MAX,
            forall|i: int|
                0 <= i < self.memory().len() ==> (#[trigger] self.memory()[i]).len() <= usize::MAX,
    {
        assert(self.chunks@.len() == self.chunks.len());
        assert forall|i: int| 0
            <= i < self.memory().len() implies (#[trigger] self.memory()[i]).len()
            <= usize::MAX by {
            assert(self.memory()[i] == self.chunks@[i]@);
            assert(self.chunks@[i]@.len() == self.chunks@[i].len());
        }
    }

    /// The state of an arena that was made and not used yet.
    pub open spec fn fresh(page_size: nat, aligned_size: nat) -> ArenaState {
        ArenaState {
            page_size,
            aligned_size,
            head_size: page_size,
            offset: 0,
            retired: Seq::empty(),
            allocated: page_size,
            used: 0,
        }
    }

    /// An arena whose chunks have `page_size` bytes unless more is asked for.
    pub fn new(page_size: usize) -> (arena: Arena)
        ensures
            arena.wf(),
            arena@ == Arena::fresh(page_size as nat, DEFAULT_ALIGNED_SIZE as nat),
            arena.memory() == seq![zeros(page_size as nat)],
    {
        Arena::new_with_aligned(page_size, DEFAULT_ALIGNED_SIZE)
    }

    /// An arena like that of `new`, which records `aligned_size` as the
    /// alignment of its chunks.
    pub fn new_with_aligned(page_size: usize, aligned_size: usize) -> (arena: Arena)
        ensures
            arena.wf(),
            arena@ == Arena::fresh(page_size as nat, aligned_size as nat),
            arena.memory() == seq![zeros(page_size as nat)],
    {
        let head: Vec<u8> = vec![0u8; page_size];
        let mut chunks: Vec<Vec<u8>> = Vec::new();
        chunks.push(head);
        let arena = Arena {
            default_page_size: page_size,
            aligned_size,
            chunks,
            offset: 0,
            allocated_size: page_size,
            used_size: 0,
        };
        proof {
            assert(arena@.retired =~= Seq::<nat>::empty());
            assert(arena.chunks@[0]@ =~= zeros(page_size as nat));
            assert(arena.memory() =~= seq![zeros(page_size as nat)]);
        }
        arena
    }

    /// Number of retired chunks.
    pub fn chunk_num(&self) -> (n: usize)
        requires
            self.wf(),
        ensures
            n == self@.retired.len(),
    {
        self.chunks.len() - 1
    }

    /// Bytes reserved in all chunks together.
    pub fn allocated_size(&self) -> (n: usize)
        ensures
            n == self@.allocated,
    {
        self.allocated_size
    }

    /// Bytes handed out: from the retired chunks and from the head.
    pub fn used_size(&self) -> (n: usize)
        requires
            self.wf(),
        ensures
            n == self@.used + self@.offset,
    {
        self.used_size + self.offset
    }

    /// Whether `size` more bytes do not fit in the head.
    pub fn need_grow(&self, size: usize) -> (b: bool)
        requires
            self.wf(),
        ensures
            b == needs_grow(self@, size as nat),
    {
        let head_size: usize = self.chunks[self.chunks.len() - 1].len();
        head_size - self.offset < size
    }

    /// Whether `size` more bytes can be handed out: whether what is reserved
    /// afterwards can still be counted.
    pub fn can_allocate(&self, size: usize) -> (b: bool)
        requires
            self.wf(),
        ensures
            b == (alloc_step(self@, size as nat).allocated <= usize::MAX),
    {
        if !self.need_grow(size) {
            return true;
        }
        let actual_size: usize = if self.default_page_size >= size {
            self.default_page_size
        } else {
            size
        };
        let kept: usize = if self.offset == 0 {
            self.allocated_size - self.chunks[self.chunks.len() - 1].len()
        } else {
            self.allocated_size
        };
        actual_size <= usize::MAX - kept
    }

    /// Makes room for `required_size` bytes: resizes the head where nothing
    /// was handed out from it, else retires it and starts a new one.
    fn new_chunk(&mut self, required_size: usize)
        requires
            old(self).wf(),
            needs_grow(old(self)@, required_size as nat),
            grown(old(self)@, required_size as nat).allocated <= usize::MAX,
        ensures
            final(self).wf(),
            final(self)@ == grown(old(self)@, required_size as nat),
            final(self).memory() == grown_memory(
                old(self).memory(),
                old(self)@,
                required_size as nat,
            ),
    {
        let actual_size: usize = if self.default_page_size >= required_size {
            self.default_page_size
        } else {
            required_size
        };
        let last: usize = self.chunks.len() - 1;
        if self.offset == 0 {
            let head_size: usize = self.chunks[last].len();
            self.allocated_size = self.allocated_size - head_size;
            self.chunks[last].resize(actual_size, 0u8);
            proof {
                assert(self@.retired =~= old(self)@.retired);
                assert(self.chunks@[last as int]@ =~= old(self).chunks@[last as int]@ + zeros(
                    (actual_size - head_size) as nat,
                ));
                assert(self.memory() =~= grown_memory(
                    old(self).memory(),
                    old(self)@,
                    required_size as nat,
                ));
            }
        } else {
            let head: Vec<u8> = vec![0u8; actual_size];
            proof {
                assert(head@ =~= zeros(actual_size as nat));
            }
            self.chunks.push(head);
            proof {
                let before = old(self)@.retired;
                let after = self@.retired;
                assert(after =~= before.push(old(self)@.head_size));
                assert(after.drop_last() =~= before);
                assert(self.memory() =~= grown_memory(
                    old(self).memory(),
                    old(self)@,
                    required_size as nat,
                ));
            }
        }
        self.used_size = self.used_size + self.offset;
        self.allocated_size = self.allocated_size + actual_size;
        self.offset = 0;
    }

    /// Hands out the next `size` bytes, after making room for them where the
    /// head has too little, and returns a cursor at their start.
    pub fn allocate(&mut self, size: usize) -> (buf: Buf)
        requires
            old(self).wf(),
            alloc_step(old(self)@, size as nat).allocated <= usize::MAX,
        ensures
            final(self).wf(),
            final(self)@ == alloc_step(old(self)@, size as nat),
            final(self).memory() == grown_memory(old(self).memory(), old(self)@, size as nat),
            buf@ == (BufView {
                chunk: final(self)@.retired.len(),
                start: (final(self)@.offset - size) as nat,
                limit: final(self)@.offset,
                pos: 0,
            }),
            crate::memutil::buffer::fits(buf@, final(self).memory()),
    {
        if self.need_grow(size) {
            self.new_chunk(size);
        }
        let start: usize = self.offset;
        self.offset = self.offset + size;
        proof {
            self.lemma_wf();
        }
        Buf::new(self.chunks.len() - 1, start, start + size)
    }

    /// Size of chunk number `chunk`, where there is such a chunk: the head has
    /// the number that follows those of the retired chunks.
    pub fn chunk_len(&self, chunk: usize) -> (r: Option<usize>)
        requires
            self.wf(),
        ensures
            match r {
                Some(len) => chunk < self.memory().len() && len
                    == self.memory()[chunk as int].len(),
                None => chunk >= self.memory().len(),
            },
    {
        if chunk < self.chunks.len() {
            Some(self.chunks[chunk].len())
        } else {
            None
        }
    }

    /// Reads the value that lies at `at` in chunk number `chunk`.
    pub fn load<T: Scalar>(&self, chunk: usize, at: usize) -> (v: T)
        requires
            self.wf(),
            chunk < self.memory().len(),
            at + T::width() <= self.memory()[chunk as int].len(),
        ensures
            v == T::decode(self.memory()[chunk as int].subrange(at as int, at + T::width())),
    {
        T::load(&self.chunks[chunk], at)
    }

    /// Writes `v` at `at` into chunk number `chunk`. No other byte and no
    /// counter changes.
    pub fn store<T: Scalar>(&mut self, chunk: usize, at: usize, v: T)
        requires
            old(self).wf(),
            chunk < old(self).memory().len(),
            at + T::width() <= old(self).memory()[chunk as int].len(),
        ensures
            final(self).wf(),
            final(self)@ == old(self)@,
            final(self).memory() == old(self).memory().update(
                chunk as int,
                overlay(old(self).memory()[chunk as int], at as int, v.encode()),
            ),
    {
        v.store(&mut self.chunks[chunk], at);
        proof {
            assert(self@.retired =~= old(self)@.retired);
            assert(self.memory() =~= old(self).memory().update(
                chunk as int,
                overlay(old(self).memory()[chunk as int], at as int, v.encode()),
            ));
        }
    }

    /// Copies `src` to `at` in chunk number `chunk`. No other byte and no
    /// counter changes.
    pub fn store_bytes(&mut self, chunk: usize, at: usize, src: &[u8])
        requires
            old(self).wf(),
            chunk < old(self).memory().len(),
            at + src@.len() <= old(self).memory()[chunk as int].len(),
        ensures
            final(self).wf(),
            final(self)@ == old(self)@,
            final(self).memory() == old(self).memory().update(
                chunk as int,
                overlay(old(self).memory()[chunk as int], at as int, src@),
            ),
    {
        let n: usize = src.len();
        let cap: usize = self.chunks[chunk].len();
        let mut i: usize = 0;
        proof {
            assert(overlay(old(self).memory()[chunk as int], at as int, src@.take(0))
                =~= old(self).memory()[chunk as int]);
            assert(self.memory() =~= old(self).memory().update(
                chunk as int,
                overlay(old(self).memory()[chunk as int], at as int, src@.take(0)),
            ));
        }
        while i < n
            invariant
                i <= n,
                n == src@.len(),
                chunk < self.chunks@.len() == old(self).memory().len(),
                self.chunks@[chunk as int]@.len() == old(self).memory()[chunk as int].len(),
                cap == old(self).memory()[chunk as int].len(),
                at + n <= cap,
                self.wf(),
                self@ == old(self)@,
                self.memory() == old(self).memory().update(
                    chunk as int,
                    overlay(old(self).memory()[chunk as int], at as int, src@.take(i as int)),
                ),
            decreases n - i,
        {
            let ghost before = *self;
            self.chunks[chunk][at + i] = src[i];
            proof {
                assert(self@.retired =~= before@.retired);
                assert(self.chunks@[chunk as int]@ =~= overlay(
                    old(self).memory()[chunk as int],
                    at as int,
                    src@.take(i as int + 1),
                )) by {
                    assert(before.memory()[chunk as int] == before.chunks@[chunk as int]@);
                }
                let target = old(self).memory().update(
                    chunk as int,
                    overlay(
                        old(self).memory()[chunk as int],
                        at as int,
                        src@.take(i as int + 1),
                    ),
                );
                assert forall|j: int| 0 <= j < self.memory().len() implies self.memory()[j]
                    == target[j] by {
                    assert(before.memory()[j] == before.chunks@[j]@);
                }
                assert(self.memory() =~= target);
            }
            i = i + 1;
        }
        proof {
            assert(src@.take(n as int) =~= src@);
        }
    }

    /// The `len` bytes that lie at `at` in chunk number `chunk`.
    pub fn load_bytes(&self, chunk: usize, at: usize, len: usize) -> (out: Vec<u8>)
        requires
            self.wf(),
            chunk < self.memory().len(),
            at + len <= self.memory()[chunk as int].len(),
        ensures
            out@ == self.memory()[chunk as int].subrange(at as int, at + len),
    {
        let mut out: Vec<u8> = Vec::new();
        let cap: usize = self.chunks[chunk].len();
        let mut i: usize = 0;
        while i < len
            invariant
                i <= len,
                cap == self.chunks@[chunk as int]@.len(),
                self.wf(),
                chunk < self.chunks@.len(),
                self.memory()[chunk as int] == self.chunks@[chunk as int]@,
                at + len <= self.memory()[chunk as int].len(),
                out@ == self.memory()[chunk as int].subrange(at as int, at + i),
            decreases len - i,
        {
            out.push(self.chunks[chunk][at + i]);
            proof {
                assert(out@ =~= self.memory()[chunk as int].subrange(at as int, at + i + 1));
            }
            i = i + 1;
        }
        out
    }

    /// Hands out as many bytes as `s` has, copies `s` into them and returns
    /// where they lie.
    pub fn alloc_str(&mut self, s: &str) -> (addr: Addr)
        requires
            old(self).wf(),
            alloc_step(old(self)@, s.spec_bytes().len()).allocated <= usize::MAX,
        ensures
            final(self).wf(),
            final(self)@ == alloc_step(old(self)@, s.spec_bytes().len()),
            addr.chunk == final(self)@.retired.len(),
            addr.offset == final(self)@.offset - s.spec_bytes().len(),
            addr.chunk < final(self).memory().len(),
            addr.offset + s.spec_bytes().len() <= final(self).memory()[addr.chunk as int].len(),
            final(self).memory()[addr.chunk as int].subrange(
                addr.offset as int,
                addr.offset + s.spec_bytes().len(),
            ) == s.spec_bytes(),
            final(self).memory() == grown_memory(
                old(self).memory(),
                old(self)@,
                s.spec_bytes().len(),
            ).update(
                addr.chunk as int,
                overlay(
                    grown_memory(old(self).memory(), old(self)@,
                        s.spec_bytes().len())[addr.chunk as int],
                    addr.offset as int,
                    s.spec_bytes(),
                ),
            ),
    {
        let size: usize = s.len();
        if self.need_grow(size) {
            self.new_chunk(size);
        }
        let chunk: usize = self.chunks.len() - 1;
        let start: usize = self.offset;
        self.offset = self.offset + size;
        proof {
            self.lemma_wf();
            crate::codec::lemma_overlay_read(
                self.memory()[chunk as int],
                start as int,
                s.spec_bytes(),
            );
        }
        self.store_bytes(chunk, start, s.as_bytes());
        Addr { chunk, offset: start }
    }
}

} // verus!
