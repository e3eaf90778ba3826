//! What holds of every search, whatever the images and the scores.

use crate::geometry::Position;
use crate::matrix::{above, lemma_position_in_grid, lemma_tops_unique, Grid, Match};
use crate::score::{Score, ONE_BITS};
use crate::search::Templated;
use vstd::prelude::*;

verus! {

/// Whether cell `b` leads the first `n` cells: it is a number, none of the
/// first `n` cells is strictly greater, and none before it has its value.
pub open spec fn leads(g: Grid, b: int, n: int) -> bool {
    &&& 0 <= b < n
    &&& !g.cells[b].nan()
    &&& forall|j: int| 0 <= j < n ==> !(#[trigger] g.cells[j]).exceeds(g.cells[b])
    &&& forall|j: int| 0 <= j < b ==> !(#[trigger] g.cells[j]).same_value(g.cells[b])
}

/// Among the first `n` cells, if one of them is a number, one leads.
pub proof fn lemma_leader_exists(g: Grid, n: int) -> (b: int)
    requires
        0 <= n <= g.cells.len(),
        exists|j: int| 0 <= j < n && !(#[trigger] g.cells[j]).nan(),
    ensures
        leads(g, b, n),
    decreases n,
{
    let last = g.cells[n - 1];
    if exists|j: int| 0 <= j < n - 1 && !(#[trigger] g.cells[j]).nan() {
        let before = lemma_leader_exists(g, n - 1);
        if last.exceeds(g.cells[before]) {
            n - 1
        } else {
            before
        }
    } else {
        n - 1
    }
}

/// A pair is a match above the threshold exactly if it is a cell with its
/// placement, and the score of that cell is strictly greater than the
/// threshold.
pub proof fn lemma_matches_are_cells_above(g: Grid, threshold: Score, m: Match)
    ensures
        g.matches(threshold).contains(m) <==> exists|i: int|
            0 <= i < g.cells.len() && m == #[trigger] g.entry(i) && g.cells[i].exceeds(threshold),
{
    let entries = g.entries();
    let pred = above(threshold);
    if g.matches(threshold).contains(m) {
        entries.lemma_filter_contains_rev(pred, m);
        let i = choose|i: int| 0 <= i < entries.len() && entries[i] == m;
        assert(m == g.entry(i));
        let k = choose|k: int| 0 <= k < g.matches(threshold).len() && g.matches(threshold)[k] == m;
        entries.lemma_filter_pred(pred, k);
        assert(g.cells[i].exceeds(threshold));
    }
    if exists|i: int|
        0 <= i < g.cells.len() && m == #[trigger] g.entry(i) && g.cells[i].exceeds(threshold) {
        let i = choose|i: int|
            0 <= i < g.cells.len() && m == #[trigger] g.entry(i) && g.cells[i].exceeds(threshold);
        assert(entries[i] == m);
        assert(pred(entries[i]));
        entries.lemma_filter_contains(pred, i);
    }
}

/// Lowering the threshold loses no match: every match above `high` is a match
/// above any `low` that `high` is strictly greater than.
pub proof fn lemma_lower_threshold_keeps_matches(g: Grid, low: Score, high: Score)
    requires
        high.exceeds(low),
    ensures
        forall|m: Match| #[trigger] g.matches(high).contains(m) ==> g.matches(low).contains(m),
{
    assert forall|m: Match| #[trigger] g.matches(high).contains(m) implies g.matches(low).contains(
        m,
    ) by {
        lemma_matches_are_cells_above(g, high, m);
        lemma_matches_are_cells_above(g, low, m);
        let i = choose|i: int|
            0 <= i < g.cells.len() && m == #[trigger] g.entry(i) && g.cells[i].exceeds(high);
        assert(g.cells[i].exceeds(low));
    }
}

/// The comparison is strict: a cell whose score equals the threshold is no
/// match, and no match stands at its placement.
pub proof fn lemma_cell_at_threshold_is_no_match(g: Grid, threshold: Score, i: int)
    requires
        g.wf(),
        0 <= i < g.cells.len(),
        g.cells[i] == threshold || g.cells[i].same_value(threshold),
    ensures
        !g.matches(threshold).contains(g.entry(i)),
        forall|m: Match| #[trigger] g.matches(threshold).contains(m) ==> m.0 != g.position(i),
{
    assert forall|m: Match| #[trigger] g.matches(threshold).contains(m) implies m.0 != g.position(
        i,
    ) by {
        lemma_matches_are_cells_above(g, threshold, m);
        let j = choose|j: int|
            0 <= j < g.cells.len() && m == #[trigger] g.entry(j) && g.cells[j].exceeds(threshold);
        lemma_position_in_grid(g, i);
        lemma_position_in_grid(g, j);
    }
    lemma_matches_are_cells_above(g, threshold, g.entry(i));
}

/// The matches among the first `n` cells of the row-by-row order.
pub open spec fn matches_among(g: Grid, threshold: Score, n: int) -> Seq<Match> {
    g.entries().take(n).filter(above(threshold))
}

/// The matches among the first `n` cells stand in the order of their cells:
/// each is a cell before the `n`-th with its placement, and a later match
/// belongs to a later cell.
proof fn lemma_prefix_matches_ordered(g: Grid, threshold: Score, n: int)
    requires
        g.wf(),
        0 <= n <= g.cells.len(),
    ensures
        forall|a: int|
            0 <= a < matches_among(g, threshold, n).len() ==> {
                let m = #[trigger] matches_among(g, threshold, n)[a];
                &&& g.holds(m.0)
                &&& 0 <= g.index(m.0) < n
                &&& m == g.entry(g.index(m.0))
            },
        forall|a: int, b: int|
            0 <= a < b < matches_among(g, threshold, n).len() ==> g.index(
                (#[trigger] matches_among(g, threshold, n)[a]).0,
            ) < g.index((#[trigger] matches_among(g, threshold, n)[b]).0),
    decreases n,
{
    reveal(Seq::filter);
    let pred = above(threshold);
    let now = g.entries().take(n);
    if n > 0 {
        lemma_prefix_matches_ordered(g, threshold, n - 1);
        let before = g.entries().take(n - 1);
        assert(now.drop_last() =~= before);
        assert(now.last() == g.entry(n - 1));
        lemma_position_in_grid(g, n - 1);
        let kept = matches_among(g, threshold, n - 1);
        let all = matches_among(g, threshold, n);
        if pred(now.last()) {
            assert(all == kept.push(g.entry(n - 1)));
            assert forall|a: int| 0 <= a < all.len() implies {
                let m = #[trigger] all[a];
                &&& g.holds(m.0)
                &&& 0 <= g.index(m.0) < n
                &&& m == g.entry(g.index(m.0))
            } by {
                if a < kept.len() {
                    assert(all[a] == kept[a]);
                }
            }
            assert forall|a: int, b: int| 0 <= a < b < all.len() implies g.index(
                (#[trigger] all[a]).0,
            ) < g.index((#[trigger] all[b]).0) by {
                assert(all[a] == kept[a]);
                if b < kept.len() {
                    assert(all[b] == kept[b]);
                }
            }
        } else {
            assert(all == kept);
        }
    }
}

/// The matches stand in row-major order: each is a cell of the matrix with
/// its placement, and of two matches the later one stands in a later row, or
/// in the same row and a later column.
pub proof fn lemma_matches_in_row_major_order(g: Grid, threshold: Score)
    requires
        g.wf(),
    ensures
        forall|a: int|
            0 <= a < g.matches(threshold).len() ==> {
                let m = #[trigger] g.matches(threshold)[a];
                &&& g.holds(m.0)
                &&& m == g.entry(g.index(m.0))
                &&& m.1.exceeds(threshold)
            },
        forall|a: int, b: int|
            0 <= a < b < g.matches(threshold).len() ==> {
                let first = (#[trigger] g.matches(threshold)[a]).0;
                let second = (#[trigger] g.matches(threshold)[b]).0;
                first.y < second.y || (first.y == second.y && first.x < second.x)
            },
{
    let n = g.cells.len() as int;
    let found = g.matches(threshold);
    lemma_prefix_matches_ordered(g, threshold, n);
    assert(g.entries().take(n) =~= g.entries());
    assert(found == matches_among(g, threshold, n));
    assert forall|a: int| 0 <= a < found.len() implies {
        let m = #[trigger] found[a];
        &&& g.holds(m.0)
        &&& m == g.entry(g.index(m.0))
        &&& m.1.exceeds(threshold)
    } by {
        g.entries().lemma_filter_pred(above(threshold), a);
    }
    assert forall|a: int, b: int| 0 <= a < b < found.len() implies {
        let first = (#[trigger] found[a]).0;
        let second = (#[trigger] found[b]).0;
        first.y < second.y || (first.y == second.y && first.x < second.x)
    } by {
        let first = found[a].0;
        let second = found[b].0;
        assert(g.index(first) < g.index(second));
        assert(first.y <= second.y) by (nonlinear_arith)
            requires
                first.y * g.cols + first.x < second.y * g.cols + second.x,
                0 <= first.x < g.cols,
                0 <= second.x < g.cols,
        ;
    }
}

/// The test that a score passes when it is strictly greater than the
/// threshold.
pub open spec fn score_above(threshold: Score) -> spec_fn(Score) -> bool {
    |s: Score| s.exceeds(threshold)
}

/// Among the first `n` cells there are as many matches as scores that are
/// strictly greater than the threshold, with the same scores in the same
/// order.
proof fn lemma_prefix_matches_counted(g: Grid, threshold: Score, n: int)
    requires
        0 <= n <= g.cells.len(),
    ensures
        matches_among(g, threshold, n).len() == g.cells.take(n).filter(
            score_above(threshold),
        ).len(),
        forall|k: int|
            0 <= k < matches_among(g, threshold, n).len() ==> (#[trigger] matches_among(
                g,
                threshold,
                n,
            )[k]).1 == g.cells.take(n).filter(score_above(threshold))[k],
    decreases n,
{
    reveal(Seq::filter);
    if n > 0 {
        lemma_prefix_matches_counted(g, threshold, n - 1);
        assert(g.entries().take(n).drop_last() =~= g.entries().take(n - 1));
        assert(g.cells.take(n).drop_last() =~= g.cells.take(n - 1));
        assert(g.entries().take(n).last() == g.entry(n - 1));
        assert(g.cells.take(n).last() == g.cells[n - 1]);
    }
}

/// There is one match for each cell whose score is strictly greater than
/// the threshold, with the score of that cell: no cell is reported twice,
/// and none is merged with its neighbours.
pub proof fn lemma_one_match_for_each_cell_above(g: Grid, threshold: Score)
    ensures
        g.matches(threshold).len() == g.cells.filter(score_above(threshold)).len(),
        forall|k: int|
            0 <= k < g.matches(threshold).len() ==> (#[trigger] g.matches(threshold)[k]).1
                == g.cells.filter(score_above(threshold))[k],
{
    let n = g.cells.len() as int;
    lemma_prefix_matches_counted(g, threshold, n);
    assert(g.entries().take(n) =~= g.entries());
    assert(g.cells.take(n) =~= g.cells);
}

/// The matches depend on nothing but the cells, the number of columns and
/// the threshold: the same scores give the same matches in the same order.
pub proof fn lemma_matches_repeatable(g: Grid, h: Grid, threshold: Score)
    requires
        g.cells == h.cells,
        g.cols == h.cols,
    ensures
        g.matches(threshold) == h.matches(threshold),
        g.matches(threshold).len() == h.matches(threshold).len(),
{
    assert(g.entries() =~= h.entries());
}

/// The best match agrees with the matches: there is one exactly if the
/// maximum of the matrix is strictly greater than the threshold, which is
/// exactly if there is any match; and the best match is one of the matches.
pub proof fn lemma_best_agrees_with_matches(g: Grid, threshold: Score)
    ensures
        g.best(threshold) is Some <==> exists|i: int|
            #[trigger] g.maximal(i) && g.cells[i].exceeds(threshold),
        g.best(threshold) is Some <==> g.matches(threshold).len() > 0,
        g.best(threshold) is Some <==> g.any_above(threshold),
        g.best(threshold) matches Some(m) ==> g.matches(threshold).contains(m),
{
    let n = g.cells.len() as int;
    if g.any_above(threshold) {
        let i = choose|i: int| 0 <= i < g.cells.len() && #[trigger] g.cells[i].exceeds(threshold);
        let b = lemma_leader_exists(g, n);
        assert(g.tops(b));
        assert(!g.cells[i].exceeds(g.cells[b]));
        assert(g.cells[b].exceeds(threshold));
        assert(g.maximal(b));
        let k = choose|k: int| g.tops(k) && g.cells[k].exceeds(threshold);
        lemma_tops_unique(g, b, k);
        lemma_matches_are_cells_above(g, threshold, g.entry(b));
        assert(g.matches(threshold).contains(g.entry(b)));
    }
    if exists|i: int| #[trigger] g.maximal(i) && g.cells[i].exceeds(threshold) {
        let i = choose|i: int| #[trigger] g.maximal(i) && g.cells[i].exceeds(threshold);
        assert(g.cells[i].exceeds(threshold));
        assert(g.any_above(threshold));
    }
    if g.matches(threshold).len() > 0 {
        let m = g.matches(threshold)[0];
        assert(g.matches(threshold).contains(m));
        lemma_matches_are_cells_above(g, threshold, m);
        assert(g.any_above(threshold));
    }
    if g.best(threshold) is Some {
        let k = choose|k: int| g.tops(k) && g.cells[k].exceeds(threshold);
        assert(g.cells[k].exceeds(threshold));
        assert(g.any_above(threshold));
    }
}

/// Every match of a search is a placement at which the needle lies within
/// the haystack, and so is the best match.
pub proof fn lemma_matches_fit(search: Templated, g: Grid, threshold: Score)
    requires
        search.wf(),
        g.wf(),
        search.accepts(g),
    ensures
        forall|m: Match| #[trigger] g.matches(threshold).contains(m) ==> search.fits(m.0),
        g.best(threshold) matches Some(m) ==> search.fits(m.0),
{
    assert forall|m: Match| #[trigger] g.matches(threshold).contains(m) implies search.fits(
        m.0,
    ) by {
        lemma_matches_are_cells_above(g, threshold, m);
        let i = choose|i: int|
            0 <= i < g.cells.len() && m == #[trigger] g.entry(i) && g.cells[i].exceeds(threshold);
        lemma_position_in_grid(g, i);
    }
    lemma_best_agrees_with_matches(g, threshold);
}

/// A needle of the size of the haystack can be placed in one way: the score
/// matrix has exactly one cell, and every match, the best one too, stands at
/// the origin.
pub proof fn lemma_same_size_has_one_placement(search: Templated, g: Grid, threshold: Score)
    requires
        search.wf(),
        g.wf(),
        search.accepts(g),
        search.spec_haystack() == search.spec_needle(),
    ensures
        search.score_rows() == 1,
        search.score_cols() == 1,
        g.cells.len() == 1,
        forall|m: Match|
            #[trigger] g.matches(threshold).contains(m) ==> m.0 == (Position { x: 0, y: 0 }),
        g.best(threshold) matches Some(m) ==> m.0 == (Position { x: 0, y: 0 }),
{
    assert(g.rows * g.cols == 1) by (nonlinear_arith)
        requires
            g.rows == 1,
            g.cols == 1,
    ;
    assert forall|m: Match| #[trigger] g.matches(threshold).contains(m) implies m.0 == (Position {
        x: 0,
        y: 0,
    }) by {
        lemma_matches_are_cells_above(g, threshold, m);
    }
    lemma_best_agrees_with_matches(g, threshold);
}

/// Where every score lies between 0.0 and 1.0, a threshold of 1.0 or more
/// leaves no match.
pub proof fn lemma_threshold_of_one_matches_nothing(g: Grid, threshold: Score)
    requires
        g.in_unit_range(),
        !threshold.nan(),
        threshold.key() >= ONE_BITS,
    ensures
        g.matches(threshold).len() == 0,
        g.best(threshold) is None,
{
    lemma_best_agrees_with_matches(g, threshold);
    if g.any_above(threshold) {
        let i = choose|i: int| 0 <= i < g.cells.len() && #[trigger] g.cells[i].exceeds(threshold);
        assert(g.cells[i].in_unit_range());
    }
}

/// Where every score lies between 0.0 and 1.0, a threshold below zero makes
/// every cell a match.
pub proof fn lemma_negative_threshold_matches_everything(g: Grid, threshold: Score)
    requires
        g.in_unit_range(),
        !threshold.nan(),
        threshold.key() < 0,
    ensures
        g.matches(threshold) == g.entries(),
{
    lemma_all_pass(g.entries(), above(threshold));
}

/// A filter that every entry passes keeps the entries as they are.
proof fn lemma_all_pass(s: Seq<Match>, pred: spec_fn(Match) -> bool)
    requires
        forall|i: int| 0 <= i < s.len() ==> pred(#[trigger] s[i]),
    ensures
        s.filter(pred) == s,
    decreases s.len(),
{
    reveal(Seq::filter);
    if s.len() > 0 {
        lemma_all_pass(s.drop_last(), pred);
        assert(s.drop_last().push(s.last()) =~= s);
    }
}

} // verus!
