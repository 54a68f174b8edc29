//! Scanner of delimited text: it cuts what was read into lines and the lines
//! into fields.
//!
//! The scanner does not read by itself. Whoever drives it reads from the
//! stream and hands over the bytes.

use vstd::prelude::*;
use crate::constant::VECTOR_SIZE;
use crate::schema::Schema;

verus! {

/// Size of the read buffer.
pub const BUF_SIZE: usize = 65536;

/// A range of the read buffer.
#[derive(Clone, Copy, Debug, PartialEq, Eq, Structural)]
pub struct StrSlice {
    /// Offset of the first byte.
    pub start: usize,
    /// Number of bytes.
    pub len: usize,
}

/// The positions of the byte `delim` in `text`, in ascending order.
pub open spec fn positions(text: Seq<u8>, delim: u8) -> Seq<usize>
    decreases text.len(),
{
    if text.len() == 0 {
        Seq::empty()
    } else if text.last() == delim {
        positions(text.drop_last(), delim).push((text.len() - 1) as usize)
    } else {
        positions(text.drop_last(), delim)
    }
}

/// Where piece number `k` of a text begins that is cut at the positions
/// `cuts`: at the start, or behind the cut before it.
pub open spec fn piece_start(cuts: Seq<usize>, k: int) -> int {
    if k == 0 {
        0
    } else {
        cuts[k - 1] + 1
    }
}

/// Piece number `k` of the text that begins at `from` and is cut at the
/// positions `cuts`, which count from `from`: it ends before cut number `k`.
pub open spec fn piece(from: int, cuts: Seq<usize>, k: int) -> StrSlice {
    StrSlice {
        start: (from + piece_start(cuts, k)) as usize,
        len: (cuts[k] - piece_start(cuts, k)) as usize,
    }
}

/// The positions of a byte in a text are positions of the text, at which the
/// byte stands, and each is less than the next.
pub proof fn lemma_positions(text: Seq<u8>, delim: u8)
    requires
        text.len() <= usize::MAX,
    ensures
        positions(text, delim).len() <= text.len(),
        forall|k: int|
            0 <= k < positions(text, delim).len() ==> (#[trigger] positions(text, delim)[k])
                < text.len() && text[positions(text, delim)[k] as int] == delim,
        forall|j: int, k: int|
            0 <= j < k < positions(text, delim).len() ==> positions(text, delim)[j] < positions(
                text,
                delim,
            )[k],
        forall|i: int|
            0 <= i < text.len() && text[i] == delim ==> positions(text, delim).contains(i as usize),
    decreases text.len(),
{
    if text.len() > 0 {
        let front = text.drop_last();
        lemma_positions(front, delim);
        let all = positions(text, delim);
        let before = positions(front, delim);
        assert forall|k: int| 0 <= k < all.len() implies (#[trigger] all[k]) < text.len()
            && text[all[k] as int] == delim by {
            if k < before.len() {
                assert(all[k] == before[k]);
                assert(front[before[k] as int] == text[before[k] as int]);
            }
        }
        assert forall|j: int, k: int| 0 <= j < k < all.len() implies all[j] < all[k] by {
            assert(all[j] == before[j]);
            if k < before.len() {
                assert(all[k] == before[k]);
            }
        }
        assert forall|i: int| 0 <= i < text.len() && text[i] == delim implies all.contains(
            i as usize,
        ) by {
            if i < front.len() {
                assert(front[i] == delim);
                let w = before.index_of(i as usize);
                assert(all[w] == i as usize);
            } else {
                assert(all[all.len() - 1] == i as usize);
            }
        }
    }
}

/// The positions of a byte in the first `k` bytes of a text are the first of
/// its positions in the text.
pub proof fn lemma_positions_prefix(text: Seq<u8>, delim: u8, k: int)
    requires
        0 <= k <= text.len(),
    ensures
        positions(text.take(k), delim).len() <= positions(text, delim).len(),
        positions(text.take(k), delim) == positions(text, delim).take(
            positions(text.take(k), delim).len() as int,
        ),
    decreases text.len() - k,
{
    if k == text.len() {
        assert(text.take(k) =~= text);
        assert(positions(text, delim).take(positions(text, delim).len() as int) =~= positions(
            text,
            delim,
        ));
    } else {
        lemma_positions_prefix(text, delim, k + 1);
        assert(text.take(k + 1).drop_last() =~= text.take(k));
        let longer = positions(text.take(k + 1), delim);
        let shorter = positions(text.take(k), delim);
        assert(shorter =~= longer.take(shorter.len() as int));
        assert(shorter =~= positions(text, delim).take(shorter.len() as int));
    }
}

/// Cuts the bytes of `buf` from `from` up to `to` at the byte `delim` into at
/// most `max` pieces, and writes where the pieces lie to the front of `out`.
/// Returns the number of pieces and the position, counted from `from`, behind
/// the last cut.
pub fn cut(
    buf: &Vec<u8>,
    from: usize,
    to: usize,
    delim: u8,
    out: &mut Vec<StrSlice>,
    max: usize,
) -> (r: (usize, usize))
    requires
        from <= to <= buf@.len(),
        max <= old(out)@.len(),
    ensures
        r.0 == if positions(buf@.subrange(from as int, to as int), delim).len() <= max {
            positions(buf@.subrange(from as int, to as int), delim).len()
        } else {
            max as nat
        },
        r.1 == piece_start(positions(buf@.subrange(from as int, to as int), delim), r.0 as int),
        final(out)@.len() == old(out)@.len(),
        forall|k: int|
            0 <= k < r.0 ==> (#[trigger] final(out)@[k]) == piece(
                from as int,
                positions(buf@.subrange(from as int, to as int), delim),
                k,
            ),
        forall|k: int| r.0 <= k < old(out)@.len() ==> (#[trigger] final(out)@[k]) == old(out)@[k],
{
    let ghost text = buf@.subrange(from as int, to as int);
    let ghost all = positions(text, delim);
    let n: usize = to - from;
    let mut count: usize = 0;
    let mut last_pos: usize = 0;
    let mut cur_pos: usize = 0;
    proof {
        assert(text.take(0) =~= Seq::<u8>::empty());
    }
    while cur_pos < n && count < max
        invariant
            cur_pos <= n,
            count <= max,
            n == to - from,
            from <= to <= buf@.len(),
            max <= out@.len(),
            out@.len() == old(out)@.len(),
            text == buf@.subrange(from as int, to as int),
            all == positions(text, delim),
            count == positions(text.take(cur_pos as int), delim).len(),
            last_pos == piece_start(positions(text.take(cur_pos as int), delim), count as int),
            last_pos <= cur_pos,
            forall|k: int|
                0 <= k < count ==> (#[trigger] out@[k]) == piece(
                    from as int,
                    positions(text.take(cur_pos as int), delim),
                    k,
                ),
            forall|k: int| count <= k < out@.len() ==> (#[trigger] out@[k]) == old(out)@[k],
        decreases n - cur_pos,
    {
        let ghost seen = positions(text.take(cur_pos as int), delim);
        proof {
            assert(text.take(cur_pos as int + 1).drop_last() =~= text.take(cur_pos as int));
            assert(text.take(cur_pos as int + 1).last() == buf@[from + cur_pos]);
            lemma_positions(text.take(cur_pos as int), delim);
        }
        let c: u8 = buf[from + cur_pos];
        if c == delim {
            out[count] = StrSlice { start: from + last_pos, len: cur_pos - last_pos };
            proof {
                let now = positions(text.take(cur_pos as int + 1), delim);
                assert(now == seen.push(cur_pos));
                assert forall|k: int| 0 <= k < count + 1 implies (#[trigger] out@[k]) == piece(
                    from as int,
                    now,
                    k,
                ) by {
                    if k < count {
                        assert(now[k] == seen[k]);
                        if k > 0 {
                            assert(now[k - 1] == seen[k - 1]);
                        }
                    } else {
                        if k > 0 {
                            assert(now[k - 1] == seen[k - 1]);
                        }
                    }
                }
            }
            last_pos = cur_pos + 1;
            count = count + 1;
        } else {
            proof {
                let now = positions(text.take(cur_pos as int + 1), delim);
                assert(now == seen);
            }
        }
        cur_pos = cur_pos + 1;
    }
    proof {
        lemma_positions_prefix(text, delim, cur_pos as int);
        let seen = positions(text.take(cur_pos as int), delim);
        if cur_pos == n {
            assert(text.take(cur_pos as int) =~= text);
        }
        assert forall|k: int| 0 <= k < count implies (#[trigger] out@[k]) == piece(
            from as int,
            all,
            k,
        ) by {
            assert(seen[k] == all[k]);
            if k > 0 {
                assert(seen[k - 1] == all[k - 1]);
            }
        }
        if count > 0 {
            assert(seen[count - 1] == all[count - 1]);
        }
    }
    (count, last_pos)
}

/// Scanner of text whose lines end with a newline and whose fields end with
/// a delimiter.
pub struct DelimTextScanner {
    data_schema: Schema,
    read_fields: Option<Schema>,
    line_delim: u8,
    field_delim: u8,
    readbuf: Vec<u8>,
    /// Whether the lines of the read buffer were not cut yet.
    should_parse_line: bool,
    /// Number of lines that the last cut found.
    read_line_num: usize,
    line_slices: Vec<StrSlice>,
    fields_slices: Vec<StrSlice>,
    last_read_len: usize,
}

impl DelimTextScanner {
    /// The read buffer.
    pub closed spec fn buffer(&self) -> Seq<u8> {
        self.readbuf@
    }

    /// Where the lines lie that the last cut found, and after them what an
    /// earlier cut left.
    pub closed spec fn lines(&self) -> Seq<StrSlice> {
        self.line_slices@
    }

    /// Where the fields lie that the last cut of a line found, and after
    /// them what an earlier cut left.
    pub closed spec fn fields(&self) -> Seq<StrSlice> {
        self.fields_slices@
    }

    /// Number of lines that the last cut found.
    pub closed spec fn line_count(&self) -> nat {
        self.read_line_num as nat
    }

    /// The byte that ends a field.
    pub closed spec fn delimiter(&self) -> u8 {
        self.field_delim
    }

    /// The schema of the text.
    pub closed spec fn schema(&self) -> Schema {
        self.data_schema
    }

    /// The schema of the fields that are read, where not all are.
    pub closed spec fn projection(&self) -> Option<Schema> {
        self.read_fields
    }

    /// What holds of every scanner: its buffers have their sizes, and every
    /// line that was found lies in the read buffer.
    pub closed spec fn wf(&self) -> bool {
        &&& self.line_delim == 10
        &&& self.readbuf@.len() == BUF_SIZE
        &&& self.line_slices@.len() == VECTOR_SIZE
        &&& self.fields_slices@.len() == self.data_schema@.len()
        &&& self.read_line_num <= VECTOR_SIZE
        &&& self.last_read_len <= BUF_SIZE
        &&& forall|k: int|
            0 <= k < self.read_line_num ==> (#[trigger] self.line_slices@[k]).start
                + self.line_slices@[k].len <= BUF_SIZE
    }

    /// A scanner of text with fields as `data_schema` says, of which those of
    /// `read_fields` are read, that `field_delim` ends. Its read buffer holds
    /// zeros, and no line is found yet.
    pub fn new(data_schema: Schema, read_fields: Option<Schema>, field_delim: u8) -> (s:
        DelimTextScanner)
        ensures
            s.wf(),
            s.schema() == data_schema,
            s.projection() == read_fields,
            s.delimiter() == field_delim,
            s.line_count() == 0,
            s.buffer() == Seq::new(BUF_SIZE as nat, |i: int| 0u8),
    {
        let line_slices: Vec<StrSlice> = vec![StrSlice { start: 0, len: 0 }; VECTOR_SIZE];
        let fields_slices: Vec<StrSlice> = vec![StrSlice { start: 0, len: 0 }; data_schema.size()];
        let readbuf: Vec<u8> = vec![0u8; BUF_SIZE];
        proof {
            assert(readbuf@ =~= Seq::new(BUF_SIZE as nat, |i: int| 0u8));
        }
        DelimTextScanner {
            data_schema,
            read_fields,
            line_delim: 10,
            field_delim,
            readbuf,
            should_parse_line: true,
            read_line_num: 0,
            line_slices,
            fields_slices,
            last_read_len: 0,
        }
    }

    /// Number of lines that the last cut found.
    pub fn read_line_num(&self) -> (n: usize)
        ensures
            n == self.line_count(),
    {
        self.read_line_num
    }

    /// Where the lines lie that the last cut found, and after them what an
    /// earlier cut left.
    pub fn line_slices(&self) -> (slices: &Vec<StrSlice>)
        ensures
            slices@ == self.lines(),
    {
        &self.line_slices
    }

    /// Where the fields lie that the last cut of a line found, and after
    /// them what an earlier cut left.
    pub fn field_slices(&self) -> (slices: &Vec<StrSlice>)
        ensures
            slices@ == self.fields(),
    {
        &self.fields_slices
    }

    /// The position behind the first newline in `bytes`, where there is one.
    pub fn find_first_record_index(&self, bytes: &[u8]) -> (r: Option<usize>)
        requires
            self.wf(),
        ensures
            match r {
                Some(i) => 0 < i <= bytes@.len() && bytes@[i - 1] == 10 && forall|j: int|
                    0 <= j < i - 1 ==> bytes@[j] != 10,
                None => forall|j: int| 0 <= j < bytes@.len() ==> bytes@[j] != 10,
            },
    {
        let mut pos: usize = 0;
        while pos < bytes.len()
            invariant
                pos <= bytes@.len(),
                self.line_delim == 10,
                forall|j: int| 0 <= j < pos ==> bytes@[j] != 10,
            decreases bytes@.len() - pos,
        {
            if self.line_delim == bytes[pos] {
                return Some(pos + 1);
            }
            pos = pos + 1;
        }
        None
    }

    /// Takes over the bytes that were read: they lie at the front of the read
    /// buffer, and the rest of it stays as it is. The lines are to be cut
    /// anew.
    pub fn load(&mut self, bytes: &[u8])
        requires
            old(self).wf(),
            bytes@.len() <= BUF_SIZE,
        ensures
            final(self).wf(),
            final(self).buffer() == bytes@ + old(self).buffer().subrange(
                bytes@.len() as int,
                BUF_SIZE as int,
            ),
            final(self).line_count() == 0,
            final(self).schema() == old(self).schema(),
            final(self).projection() == old(self).projection(),
            final(self).delimiter() == old(self).delimiter(),
    {
        let n: usize = bytes.len();
        let mut i: usize = 0;
        while i < n
            invariant
                i <= n,
                n == bytes@.len(),
                n <= BUF_SIZE,
                self.readbuf@.len() == BUF_SIZE,
                self.data_schema == old(self).data_schema,
                self.read_fields == old(self).read_fields,
                self.line_delim == old(self).line_delim,
                self.field_delim == old(self).field_delim,
                self.line_slices == old(self).line_slices,
                self.fields_slices == old(self).fields_slices,
                old(self).wf(),
                self.readbuf@ == bytes@.take(i as int) + old(self).readbuf@.subrange(
                    i as int,
                    BUF_SIZE as int,
                ),
            decreases n - i,
        {
            self.readbuf[i] = bytes[i];
            proof {
                assert(self.readbuf@ =~= bytes@.take(i as int + 1) + old(self).readbuf@.subrange(
                    i as int + 1,
                    BUF_SIZE as int,
                ));
            }
            i = i + 1;
        }
        proof {
            assert(bytes@.take(n as int) =~= bytes@);
        }
        self.last_read_len = n;
        self.read_line_num = 0;
        self.should_parse_line = true;
    }

    /// Cuts the read buffer into lines, at most `VECTOR_SIZE` of them, and
    /// notes where they lie. Returns the position of the newline that ends
    /// the last line found, and `usize::MAX` where none is found.
    pub fn read_line_batch(&mut self) -> (r: usize)
        requires
            old(self).wf(),
        ensures
            final(self).wf(),
            final(self).buffer() == old(self).buffer(),
            final(self).schema() == old(self).schema(),
            final(self).projection() == old(self).projection(),
            final(self).delimiter() == old(self).delimiter(),
            final(self).fields() == old(self).fields(),
            final(self).line_count() == if positions(old(self).buffer(), 10).len() <= VECTOR_SIZE {
                positions(old(self).buffer(), 10).len()
            } else {
                VECTOR_SIZE as nat
            },
            final(self).lines().len() == old(self).lines().len(),
            forall|k: int|
                0 <= k < final(self).line_count() ==> (#[trigger] final(self).lines()[k]) == piece(
                    0,
                    positions(old(self).buffer(), 10),
                    k,
                ),
            forall|k: int|
                final(self).line_count() <= k < old(self).lines().len()
                    ==> (#[trigger] final(self).lines()[k]) == old(self).lines()[k],
            r == if final(self).line_count() > 0 {
                positions(old(self).buffer(), 10)[final(self).line_count() - 1]
            } else {
                usize::MAX
            },
    {
        proof {
            assert(self.readbuf@.subrange(0, BUF_SIZE as int) =~= self.readbuf@);
            lemma_positions(self.readbuf@, 10);
        }
        let (count, last_pos) = cut(
            &self.readbuf,
            0,
            BUF_SIZE,
            self.line_delim,
            &mut self.line_slices,
            VECTOR_SIZE,
        );
        self.read_line_num = count;
        proof {
            let all = positions(self.readbuf@, 10);
            assert forall|k: int| 0 <= k < count implies (#[trigger] self.line_slices@[k]).start
                + self.line_slices@[k].len <= BUF_SIZE by {
                assert(all[k] < BUF_SIZE);
                if k > 0 {
                    assert(all[k - 1] < all[k]);
                }
            }
        }
        if count > 0 {
            last_pos - 1
        } else {
            usize::MAX
        }
    }

    /// Cuts line number `line_idx` of the lines found into fields, at most as
    /// many as the schema of the text has, and notes where they lie. A field
    /// ends with the delimiter: what follows the last delimiter of the line is
    /// no field.
    #[inline]
    pub fn parse_fields(&mut self, line_idx: usize)
        requires
            old(self).wf(),
            line_idx < old(self).line_count(),
        ensures
            final(self).wf(),
            final(self).buffer() == old(self).buffer(),
            final(self).schema() == old(self).schema(),
            final(self).projection() == old(self).projection(),
            final(self).delimiter() == old(self).delimiter(),
            final(self).lines() == old(self).lines(),
            final(self).line_count() == old(self).line_count(),
            final(self).fields().len() == old(self).fields().len(),
            ({
                let line = old(self).lines()[line_idx as int];
                let text = old(self).buffer().subrange(
                    line.start as int,
                    line.start + line.len,
                );
                let cuts = positions(text, old(self).delimiter());
                let count = if cuts.len() <= old(self).fields().len() {
                    cuts.len()
                } else {
                    old(self).fields().len()
                };
                &&& forall|k: int|
                    0 <= k < count ==> (#[trigger] final(self).fields()[k]) == piece(
                        line.start as int,
                        cuts,
                        k,
                    )
                &&& forall|k: int|
                    count <= k < old(self).fields().len() ==> (#[trigger] final(self).fields()[k])
                        == old(self).fields()[k]
            }),
    {
        let slice = self.line_slices[line_idx];
        let max: usize = self.fields_slices.len();
        let (_count, _last) = cut(
            &self.readbuf,
            slice.start,
            slice.start + slice.len,
            self.field_delim,
            &mut self.fields_slices,
            max,
        );
    }

    /// Fills the columns of a page from the fields. It does nothing yet.
    pub fn fill_vector() {
    }

    /// The schema of the text.
    pub fn in_schema(&self) -> (s: &Schema)
        ensures
            *s == self.schema(),
    {
        &self.data_schema
    }

    /// The schema of the rows that the scanner hands on: that of the fields
    /// that are read, or that of the text where all are.
    pub fn out_schema(&self) -> (s: &Schema)
        ensures
            *s == match self.projection() {
                Some(p) => p,
                None => self.schema(),
            },
    {
        match &self.read_fields {
            Some(s) => s,
            None => &self.data_schema,
        }
    }
}

} // verus!
