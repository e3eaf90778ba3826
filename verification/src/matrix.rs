//! The score matrix: one similarity score for each placement of the needle.
//!
//! Cell `(row, col)` scores the needle with its top-left corner at row `row`
//! and column `col` of the haystack. The cells are held row by row, and are
//! read in that order.

use crate::geometry::{Position, MAX_SIDE};
use crate::score::Score;
use vstd::prelude::*;

verus! {

/// A match: the placement and its score.
pub type Match = (Position, Score);

/// The test that a match passes when its score is strictly greater than the
/// threshold.
pub open spec fn above(threshold: Score) -> spec_fn(Match) -> bool {
    |m: Match| m.1.exceeds(threshold)
}

/// The mathematical content of a [`ScoreMatrix`].
pub ghost struct Grid {
    pub rows: nat,
    pub cols: nat,
    /// The cells, row by row.
    pub cells: Seq<Score>,
}

impl Grid {
    /// There is one cell for each pair of a row and a column, and every
    /// coordinate fits a [`Position`].
    pub open spec fn wf(self) -> bool {
        &&& self.rows <= MAX_SIDE
        &&& self.cols <= MAX_SIDE
        &&& self.cells.len() == self.rows * self.cols
    }

    /// The placement that cell `i` of the row-by-row order scores.
    pub open spec fn position(self, i: int) -> Position {
        Position { x: (i % (self.cols as int)) as i32, y: (i / (self.cols as int)) as i32 }
    }

    /// Whether the matrix has a cell for the placement.
    pub open spec fn holds(self, p: Position) -> bool {
        0 <= p.x < self.cols && 0 <= p.y < self.rows
    }

    /// Where the cell of a placement stands in the row-by-row order.
    pub open spec fn index(self, p: Position) -> int {
        p.y * self.cols + p.x
    }

    /// Cell `i` with its placement.
    pub open spec fn entry(self, i: int) -> Match {
        (self.position(i), self.cells[i])
    }

    /// All cells with their placements: row 0 first, and within a row
    /// column 0 first.
    pub open spec fn entries(self) -> Seq<Match> {
        Seq::new(self.cells.len(), |i: int| self.entry(i))
    }

    /// The matches above a threshold: the cells whose score is strictly
    /// greater, in the order of [`Grid::entries`].
    pub open spec fn matches(self, threshold: Score) -> Seq<Match> {
        self.entries().filter(above(threshold))
    }

    /// The best match above a threshold: the best cell, if its score is
    /// strictly greater.
    pub open spec fn best(self, threshold: Score) -> Option<Match> {
        if exists|i: int| self.tops(i) && self.cells[i].exceeds(threshold) {
            Some(self.entry(choose|i: int| self.tops(i) && self.cells[i].exceeds(threshold)))
        } else {
            None
        }
    }

    /// Whether some cell scores strictly more than the threshold.
    pub open spec fn any_above(self, threshold: Score) -> bool {
        exists|i: int| 0 <= i < self.cells.len() && #[trigger] self.cells[i].exceeds(threshold)
    }

    /// Whether cell `i` holds the maximum: it is a number, and no cell is
    /// strictly greater.
    pub open spec fn maximal(self, i: int) -> bool {
        &&& 0 <= i < self.cells.len()
        &&& !self.cells[i].nan()
        &&& forall|j: int|
            0 <= j < self.cells.len() ==> !(#[trigger] self.cells[j]).exceeds(self.cells[i])
    }

    /// Whether cell `i` is the best: it holds the maximum, and no cell before
    /// it in the row-by-row order has the same value.
    pub open spec fn tops(self, i: int) -> bool {
        &&& self.maximal(i)
        &&& forall|j: int| 0 <= j < i ==> !(#[trigger] self.cells[j]).same_value(self.cells[i])
    }

    /// Whether every cell lies in the range from 0.0 to 1.0.
    pub open spec fn in_unit_range(self) -> bool {
        forall|i: int| 0 <= i < self.cells.len() ==> (#[trigger] self.cells[i]).in_unit_range()
    }
}

/// A matrix of similarity scores.
#[derive(Debug)]
pub struct ScoreMatrix {
    rows: usize,
    cols: usize,
    cells: Vec<Score>,
}

impl View for ScoreMatrix {
    type V = Grid;

    closed spec fn view(&self) -> Grid {
        Grid { rows: self.rows as nat, cols: self.cols as nat, cells: self.cells@ }
    }
}

impl ScoreMatrix {
    #[verifier::type_invariant]
    closed spec fn inv(self) -> bool {
        self@.wf()
    }

    /// A matrix of `rows` by `cols` cells, given row by row. There is none
    /// unless the cells are `rows * cols` in number and neither side is
    /// longer than [`MAX_SIDE`].
    pub fn new(rows: usize, cols: usize, cells: Vec<Score>) -> (m: Option<ScoreMatrix>)
        ensures
            m is Some <==> (Grid { rows: rows as nat, cols: cols as nat, cells: cells@ }).wf(),
            m matches Some(matrix) ==> matrix@ == (Grid {
                rows: rows as nat,
                cols: cols as nat,
                cells: cells@,
            }),
    {
        if rows > MAX_SIDE || cols > MAX_SIDE {
            return None;
        }
        assert(rows * cols <= 0x4000_0000_0000_0000) by (nonlinear_arith)
            requires
                rows <= 0x8000_0000,
                cols <= 0x8000_0000,
        ;
        let wanted: u64 = (rows as u64) * (cols as u64);
        if cells.len() as u64 == wanted {
            Some(ScoreMatrix { rows, cols, cells })
        } else {
            None
        }
    }

    /// The number of rows.
    pub fn rows(&self) -> (n: usize)
        ensures
            n == self@.rows,
            self@.wf(),
    {
        proof {
            use_type_invariant(self);
        }
        self.rows
    }

    /// The number of columns.
    pub fn cols(&self) -> (n: usize)
        ensures
            n == self@.cols,
            self@.wf(),
    {
        proof {
            use_type_invariant(self);
        }
        self.cols
    }

    /// The number of cells.
    pub fn len(&self) -> (n: usize)
        ensures
            n == self@.cells.len(),
            n == self@.rows * self@.cols,
    {
        proof {
            use_type_invariant(self);
        }
        self.cells.len()
    }

    /// The placement that cell `i` of the row-by-row order scores.
    pub fn position_at(&self, i: usize) -> (p: Position)
        requires
            i < self@.cells.len(),
        ensures
            p == self@.position(i as int),
            self@.holds(p),
            self@.index(p) == i,
    {
        proof {
            use_type_invariant(self);
            lemma_position_in_grid(self@, i as int);
        }
        Position { x: (i % self.cols) as i32, y: (i / self.cols) as i32 }
    }

    /// All matches above the threshold: each cell whose score is strictly
    /// greater than it, row 0 first and within a row column 0 first. A cell
    /// that equals the threshold is no match, and neither is one that is not
    /// a number.
    pub fn positions_above(&self, threshold: Score) -> (found: Vec<Match>)
        ensures
            found@ == self@.matches(threshold),
    {
        proof {
            use_type_invariant(self);
        }
        let len = self.cells.len();
        let ghost entries = self@.entries();
        let mut found: Vec<Match> = Vec::new();
        let mut i: usize = 0;
        assert(entries.take(0) =~= Seq::<Match>::empty());
        proof {
            reveal(Seq::filter);
        }
        while i < len
            invariant
                self@.wf(),
                len == self.cells@.len(),
                entries == self@.entries(),
                i <= len,
                found@ == entries.take(i as int).filter(above(threshold)),
            decreases len - i,
        {
            let score = self.cells[i];
            let position = self.position_at(i);
            proof {
                let grown = entries.take(i + 1);
                assert(grown.drop_last() =~= entries.take(i as int));
                assert(grown.last() == (position, score));
                reveal(Seq::filter);
            }
            if score.gt(&threshold) {
                found.push((position, score));
            }
            i += 1;
        }
        assert(entries.take(len as int) =~= entries);
        found
    }

    /// The best match above the threshold: the cell that holds the maximum,
    /// the first such cell in the row-by-row order where several do, if its
    /// score is strictly greater than the threshold. Cells that are not
    /// numbers are passed over.
    pub fn best_above(&self, threshold: Score) -> (best: Option<Match>)
        ensures
            best == self@.best(threshold),
            best is Some <==> self@.any_above(threshold),
            best matches Some(m) ==> {
                &&& self@.holds(m.0)
                &&& self@.tops(self@.index(m.0))
                &&& m == self@.entry(self@.index(m.0))
                &&& m.1.exceeds(threshold)
            },
    {
        proof {
            use_type_invariant(self);
        }
        let len = self.cells.len();
        let mut top: Option<usize> = None;
        let mut i: usize = 0;
        while i < len
            invariant
                len == self.cells@.len(),
                i <= len,
                match top {
                    None => forall|j: int| 0 <= j < i ==> (#[trigger] self.cells@[j]).nan(),
                    Some(t) => {
                        &&& t < i
                        &&& !self.cells@[t as int].nan()
                        &&& forall|j: int|
                            0 <= j < i ==> !(#[trigger] self.cells@[j]).exceeds(
                                self.cells@[t as int],
                            )
                        &&& forall|j: int|
                            0 <= j < t ==> !(#[trigger] self.cells@[j]).same_value(
                                self.cells@[t as int],
                            )
                    },
                },
            decreases len - i,
        {
            let score = self.cells[i];
            if !score.is_nan() {
                match top {
                    None => {
                        top = Some(i);
                    },
                    Some(t) => {
                        if score.gt(&self.cells[t]) {
                            top = Some(i);
                        }
                    },
                }
            }
            i += 1;
        }
        match top {
            None => {
                proof {
                    lemma_best_none(self@, threshold);
                }
                None
            },
            Some(t) => {
                let score = self.cells[t];
                assert(self@.tops(t as int));
                if score.gt(&threshold) {
                    let position = self.position_at(t);
                    proof {
                        lemma_best_some(self@, threshold, t as int);
                    }
                    Some((position, score))
                } else {
                    proof {
                        lemma_best_none(self@, threshold);
                    }
                    None
                }
            },
        }
    }

    /// The score of a placement, if the matrix has a cell for it.
    pub fn get(&self, p: Position) -> (s: Option<Score>)
        ensures
            s is Some <==> self@.holds(p),
            s matches Some(score) ==> {
                &&& 0 <= self@.index(p) < self@.cells.len()
                &&& self@.entry(self@.index(p)) == (p, score)
            },
    {
        proof {
            use_type_invariant(self);
            if self@.holds(p) {
                lemma_index_in_grid(self@, p);
            }
        }
        if p.x < 0 || p.y < 0 {
            return None;
        }
        let col = p.x as usize;
        let row = p.y as usize;
        if col >= self.cols || row >= self.rows {
            return None;
        }
        assert(0 <= row * self.cols && row * self.cols + col < self.rows * self.cols)
            by (nonlinear_arith)
            requires
                0 <= row < self.rows,
                0 <= col < self.cols,
        ;
        let len = self.cells.len();
        assert(row * self.cols + col < len);
        Some(self.cells[row * self.cols + col])
    }
}

/// At most one cell is the best.
pub proof fn lemma_tops_unique(g: Grid, i: int, j: int)
    requires
        g.tops(i),
        g.tops(j),
    ensures
        i == j,
{
    if i < j {
        assert(!g.cells[i].exceeds(g.cells[j]));
        assert(!g.cells[j].exceeds(g.cells[i]));
        assert(g.cells[i].same_value(g.cells[j]));
    } else if j < i {
        assert(!g.cells[i].exceeds(g.cells[j]));
        assert(!g.cells[j].exceeds(g.cells[i]));
        assert(g.cells[j].same_value(g.cells[i]));
    }
}

/// Where the best cell scores more than the threshold, it is the best match.
pub proof fn lemma_best_some(g: Grid, threshold: Score, i: int)
    requires
        g.tops(i),
        g.cells[i].exceeds(threshold),
    ensures
        g.best(threshold) == Some(g.entry(i)),
        g.any_above(threshold),
{
    let k = choose|k: int| g.tops(k) && g.cells[k].exceeds(threshold);
    lemma_tops_unique(g, i, k);
}

/// Where no cell scores more than the threshold, there is no best match.
pub proof fn lemma_best_none(g: Grid, threshold: Score)
    requires
        forall|i: int| 0 <= i < g.cells.len() ==> !(#[trigger] g.cells[i]).exceeds(threshold),
    ensures
        g.best(threshold) is None,
        !g.any_above(threshold),
{
}

/// Every cell of a well-formed grid scores a placement that the grid holds,
/// and the placement leads back to the cell.
pub proof fn lemma_position_in_grid(g: Grid, i: int)
    requires
        g.wf(),
        0 <= i < g.cells.len(),
    ensures
        g.cols > 0,
        0 <= i % (g.cols as int) < g.cols,
        0 <= i / (g.cols as int) < g.rows,
        g.position(i).x == i % (g.cols as int),
        g.position(i).y == i / (g.cols as int),
        g.holds(g.position(i)),
        g.index(g.position(i)) == i,
{
    let cols = g.cols as int;
    let rows = g.rows as int;
    assert(cols > 0) by (nonlinear_arith)
        requires
            0 <= i < rows * cols,
            cols >= 0,
    ;
    vstd::arithmetic::div_mod::lemma_fundamental_div_mod(i, cols);
    vstd::arithmetic::div_mod::lemma_mod_bound(i, cols);
    let q = i / cols;
    let r = i % cols;
    assert(0 <= q < rows) by (nonlinear_arith)
        requires
            i == cols * q + r,
            0 <= r < cols,
            0 <= i < rows * cols,
    ;
    assert(q * cols + r == i) by (nonlinear_arith)
        requires
            i == cols * q + r,
    ;
}

/// The cell of a placement that the grid holds is one of its cells, and it
/// scores that placement.
pub proof fn lemma_index_in_grid(g: Grid, p: Position)
    requires
        g.wf(),
        g.holds(p),
    ensures
        0 <= g.index(p) < g.cells.len(),
        g.position(g.index(p)) == p,
{
    let cols = g.cols as int;
    let rows = g.rows as int;
    let x = p.x as int;
    let y = p.y as int;
    assert(0 <= y * cols + x < rows * cols) by (nonlinear_arith)
        requires
            0 <= x < cols,
            0 <= y < rows,
    ;
    vstd::arithmetic::div_mod::lemma_fundamental_div_mod_converse(y * cols + x, cols, y, x);
}

} // verus!
