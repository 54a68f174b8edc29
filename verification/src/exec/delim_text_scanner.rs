//! Scanner of delimited text that finds where the lines of a text end.

use vstd::prelude::*;
use vstd::string::StringSliceAdditionalSpecFns;
use crate::exec::text_scanner::{lemma_positions_prefix, positions};

verus! {

/// Scanner of the text at a path, whose lines end with a newline and whose
/// fields end with a delimiter.
#[derive(Debug)]
pub struct DelimTextScanner<'a> {
    path: &'a str,
    line_delim: u8,
    field_delim: u8,
}

impl<'a> DelimTextScanner<'a> {
    /// The path of the text.
    pub closed spec fn spec_path(&self) -> &'a str {
        self.path
    }

    /// The byte that ends a line.
    pub closed spec fn line_end(&self) -> u8 {
        self.line_delim
    }

    /// The byte that ends a field.
    pub closed spec fn field_end(&self) -> u8 {
        self.field_delim
    }

    /// A scanner of the text at `path`, with lines that a newline ends and
    /// fields that `field_delim` ends.
    pub fn new(path: &'a str, field_delim: u8) -> (s: DelimTextScanner<'a>)
        ensures
            s.spec_path() == path,
            s.line_end() == 10,
            s.field_end() == field_delim,
    {
        DelimTextScanner { path, line_delim: 10, field_delim }
    }

    /// The position, in the bytes of `text`, behind the first end of a line,
    /// where there is one.
    pub fn find_first_record_index(&self, text: &str) -> (r: Option<usize>)
        ensures
            match r {
                Some(i) => 0 < i <= text.spec_bytes().len() && text.spec_bytes()[i - 1]
                    == self.line_end() && forall|j: int|
                    0 <= j < i - 1 ==> text.spec_bytes()[j] != self.line_end(),
                None => forall|j: int|
                    0 <= j < text.spec_bytes().len() ==> text.spec_bytes()[j] != self.line_end(),
            },
    {
        let bytes: &[u8] = text.as_bytes();
        let mut pos: usize = 0;
        while pos < bytes.len()
            invariant
                pos <= bytes@.len(),
                bytes@ == text.spec_bytes(),
                forall|j: int| 0 <= j < pos ==> bytes@[j] != self.line_delim,
            decreases bytes@.len() - pos,
        {
            if self.line_delim == bytes[pos] {
                return Some(pos + 1);
            }
            pos = pos + 1;
        }
        None
    }

    /// Appends to `delim_indexes` the positions, in the bytes of `text`, of
    /// the ends of its first lines, at most `max_row_num` of them. Returns
    /// how many were found, and the entry of `delim_indexes` at the place
    /// before that number, or `usize::MAX` where none was found: where
    /// `delim_indexes` was empty, that entry is the position of the last end
    /// found.
    pub fn next_line_indexes(
        &self,
        text: &str,
        delim_indexes: &mut Vec<usize>,
        max_row_num: usize,
    ) -> (r: (usize, usize))
        ensures
            r.0 == if positions(text.spec_bytes(), self.line_end()).len() <= max_row_num {
                positions(text.spec_bytes(), self.line_end()).len()
            } else {
                max_row_num as nat
            },
            final(delim_indexes)@ == old(delim_indexes)@ + positions(
                text.spec_bytes(),
                self.line_end(),
            ).take(r.0 as int),
            r.1 == if r.0 > 0 {
                final(delim_indexes)@[r.0 - 1]
            } else {
                usize::MAX
            },
    {
        let bytes: &[u8] = text.as_bytes();
        let ghost all = positions(bytes@, self.line_delim);
        let mut cur_delim_idx: usize = 0;
        let mut cur_pos: usize = 0;
        proof {
            assert(bytes@.take(0) =~= Seq::<u8>::empty());
            assert(delim_indexes@ =~= old(delim_indexes)@ + Seq::<usize>::empty());
        }
        while cur_pos < bytes.len() && cur_delim_idx < max_row_num
            invariant
                cur_pos <= bytes@.len(),
                cur_delim_idx <= max_row_num,
                bytes@ == text.spec_bytes(),
                all == positions(bytes@, self.line_delim),
                cur_delim_idx == positions(bytes@.take(cur_pos as int), self.line_delim).len(),
                delim_indexes@ == old(delim_indexes)@ + positions(
                    bytes@.take(cur_pos as int),
                    self.line_delim,
                ),
            decreases bytes@.len() - cur_pos,
        {
            proof {
                assert(bytes@.take(cur_pos as int + 1).drop_last() =~= bytes@.take(
                    cur_pos as int,
                ));
                assert(bytes@.take(cur_pos as int + 1).last() == bytes@[cur_pos as int]);
            }
            let c: u8 = bytes[cur_pos];
            if c == self.line_delim {
                delim_indexes.push(cur_pos);
                proof {
                    assert(delim_indexes@ =~= old(delim_indexes)@ + positions(
                        bytes@.take(cur_pos as int + 1),
                        self.line_delim,
                    ));
                }
                cur_delim_idx = cur_delim_idx + 1;
            }
            cur_pos = cur_pos + 1;
        }
        proof {
            lemma_positions_prefix(bytes@, self.line_delim, cur_pos as int);
            if cur_pos == bytes@.len() {
                assert(bytes@.take(cur_pos as int) =~= bytes@);
            }
        }
        let found_line_num: usize = cur_delim_idx;
        let last_delim: usize = if found_line_num > 0 {
            delim_indexes[found_line_num - 1]
        } else {
            usize::MAX
        };
        (found_line_num, last_delim)
    }
}

} // verus!
