//! The range model: turns character offsets into 1-based (line, column)
//! pairs. A `LineIndex` is computed once per source text and then answers
//! every position query for that text.

use vstd::prelude::*;

use crate::ast::Position;
use crate::ast::Range;

verus! {

/// How many newline characters occur strictly before `off` in `s`.
pub open spec fn newlines_before(s: Seq<char>, off: int) -> int
    decreases off,
{
    if off <= 0 {
        0
    } else {
        newlines_before(s, off - 1) + if s[off - 1] == '\n' {
            1int
        } else {
            0int
        }
    }
}

/// The offset at which the line containing offset `off` begins: the
/// position right after the closest newline at or before `off`.
pub open spec fn start_of_line(s: Seq<char>, off: int) -> int
    decreases off,
{
    if off <= 0 {
        0
    } else if s[off - 1] == '\n' {
        off
    } else {
        start_of_line(s, off - 1)
    }
}

/// The 1-based line of offset `off` in `s`.
pub open spec fn line_of(s: Seq<char>, off: int) -> int {
    1 + newlines_before(s, off)
}

/// The 1-based column of offset `off` in `s`.
pub open spec fn col_of(s: Seq<char>, off: int) -> int {
    off - start_of_line(s, off) + 1
}

/// The position that offset `off` in `s` denotes.
pub open spec fn position_of(s: Seq<char>, off: int) -> Position {
    Position {
        offset: off as usize,
        line_col: (line_of(s, off) as usize, col_of(s, off) as usize),
    }
}

/// The range spanning offsets `start` (inclusive) to `end` (exclusive) of `s`.
pub open spec fn range_of(s: Seq<char>, start: int, end: int) -> Range {
    Range { start: position_of(s, start), end: position_of(s, end) }
}

proof fn lemma_line_col_bounds(s: Seq<char>, off: int)
    requires
        0 <= off,
    ensures
        0 <= newlines_before(s, off) <= off,
        0 <= start_of_line(s, off) <= off,
    decreases off,
{
    if off > 0 {
        lemma_line_col_bounds(s, off - 1);
    }
}

/// A precomputed table holding, for every character offset of one source
/// text (including the offset one past its end), the 1-based line and
/// column of that offset.
pub struct LineIndex {
    table: Vec<(usize, usize)>,
}

impl LineIndex {
    /// The table is exactly the line/column mapping for a text `s`.
    pub closed spec fn wf(&self, s: Seq<char>) -> bool {
        &&& self.table@.len() == s.len() + 1
        &&& forall|i: int|
            0 <= i <= s.len() ==> #[trigger] self.table@[i] == (
            line_of(s, i) as usize,
            col_of(s, i) as usize,
            )
    }

    /// Build the index for `text` in one forward pass.
    pub fn new(text: &Vec<char>) -> (index: LineIndex)
        requires
            text@.len() < usize::MAX,
        ensures
            index.wf(text@),
    {
        let n: usize = text.len();
        let mut table: Vec<(usize, usize)> = Vec::new();
        let mut line: usize = 1;
        let mut col: usize = 1;
        table.push((1, 1));
        assert(newlines_before(text@, 0) == 0 && start_of_line(text@, 0) == 0);
        let mut i: usize = 0;
        while i < n
            invariant
                n == text@.len() < usize::MAX,
                0 <= i <= n,
                table@.len() == i + 1,
                line == line_of(text@, i as int),
                col == col_of(text@, i as int),
                forall|j: int|
                    0 <= j <= i ==> #[trigger] table@[j] == (
                    line_of(text@, j) as usize,
                    col_of(text@, j) as usize,
                    ),
            decreases n - i,
        {
            proof {
                lemma_line_col_bounds(text@, i as int);
                lemma_line_col_bounds(text@, i + 1);
            }
            if text[i] == '\n' {
                line = line + 1;
                col = 1;
            } else {
                col = col + 1;
            }
            table.push((line, col));
            i = i + 1;
        }
        LineIndex { table }
    }

    /// The position of character offset `off`, read off the table.
    pub fn position(&self, Ghost(s): Ghost<Seq<char>>, off: usize) -> (p: Position)
        requires
            self.wf(s),
            off <= s.len(),
        ensures
            p == position_of(s, off as int),
    {
        let lc = self.table[off];
        Position { offset: off, line_col: lc }
    }

    /// The range spanning offsets `start` (inclusive) to `end` (exclusive).
    pub fn range(&self, Ghost(s): Ghost<Seq<char>>, start: usize, end: usize) -> (r: Range)
        requires
            self.wf(s),
            start <= s.len(),
            end <= s.len(),
        ensures
            r == range_of(s, start as int, end as int),
    {
        Range { start: self.position(Ghost(s), start), end: self.position(Ghost(s), end) }
    }
}

} // verus!
