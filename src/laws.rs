//! General facts about the distance, proved over the model.
use vstd::prelude::*;

use crate::model::{cells_fit, cost_at, distance, pad, CostTable};

verus! {

/// Along the diagonal of a sequence against itself every character matches,
/// so every diagonal cell is 0.
proof fn lemma_diagonal_zero(c: CostTable, p: Seq<char>, i: int)
    requires
        0 <= i,
    ensures
        cost_at(c, p, p, i, i) == 0,
    decreases i,
{
    if i > 0 {
        lemma_diagonal_zero(c, p, i - 1);
    }
}

/// A sequence is at distance 0 from itself, whatever the costs.
pub proof fn lemma_distance_to_itself(c: CostTable, s: Seq<char>)
    ensures
        distance(c, s, s) == 0,
{
    lemma_diagonal_zero(c, pad(s), s.len() as int);
}

/// The grid of `p2` against `p1` is the transpose of the grid of `p1`
/// against `p2` when the lengths differ, whatever the costs, and when all
/// three weights are equal.
proof fn lemma_transpose(c: CostTable, p1: Seq<char>, p2: Seq<char>, x: int, y: int)
    requires
        p1.len() != p2.len() || (c.insert == c.delete && c.delete == c.replace),
    ensures
        cost_at(c, p1, p2, x, y) == cost_at(c, p2, p1, y, x),
    decreases x + y + 2,
{
    if x < 0 || y < 0 || x >= p1.len() || y >= p2.len() || (x == 0 && y == 0) {
    } else {
        lemma_transpose(c, p1, p2, x - 1, y - 1);
        lemma_transpose(c, p1, p2, x - 1, y);
        lemma_transpose(c, p1, p2, x, y - 1);
    }
}

/// The distance from `a` to `b` equals the distance from `b` to `a` when the
/// lengths differ, whatever the costs: the length-dependent axis rule puts
/// insertions along the longer sequence both ways. When `a` and `b` have the
/// same length, insertions, deletions and replacements must all cost the
/// same: ties between a replacement and the cell one step along one axis are
/// broken differently in the two directions.
pub proof fn lemma_distance_symmetric(c: CostTable, a: Seq<char>, b: Seq<char>)
    requires
        a.len() != b.len() || (c.insert == c.delete && c.delete == c.replace),
    ensures
        distance(c, a, b) == distance(c, b, a),
{
    lemma_transpose(c, pad(a), pad(b), a.len() as int, b.len() as int);
}

/// Down the first column of the empty sequence against `s`, each cell adds
/// one insertion.
proof fn lemma_empty_column(c: CostTable, s: Seq<char>, y: int)
    requires
        0 <= y <= s.len(),
        forall|i: int| 0 <= i < s.len() ==> s[i] != '\0',
    ensures
        cost_at(c, pad(Seq::empty()), pad(s), 0, y) == y * c.insert,
    decreases y,
{
    if y > 0 {
        lemma_empty_column(c, s, y - 1);
        assert(pad(s)[y] == s[y - 1]);
        assert((y - 1) * c.insert + c.insert == y * c.insert) by (nonlinear_arith);
    }
}

/// Along the first row of `s` against the empty sequence, each cell adds one
/// insertion.
proof fn lemma_empty_row(c: CostTable, s: Seq<char>, x: int)
    requires
        0 <= x <= s.len(),
        forall|i: int| 0 <= i < s.len() ==> s[i] != '\0',
    ensures
        cost_at(c, pad(s), pad(Seq::empty()), x, 0) == x * c.insert,
    decreases x,
{
    if x > 0 {
        lemma_empty_row(c, s, x - 1);
        assert(pad(s)[x] == s[x - 1]);
        assert((x - 1) * c.insert + c.insert == x * c.insert) by (nonlinear_arith);
    }
}

/// Between the empty sequence and a sequence `s` free of `'\0'`, in either
/// order, the distance is the length of `s` times the insert cost: the
/// length-dependent axis rule puts the insertions along `s` both ways. Each
/// border cell on the way holds its index times the insert cost.
pub proof fn lemma_distance_from_empty(c: CostTable, s: Seq<char>)
    requires
        forall|i: int| 0 <= i < s.len() ==> s[i] != '\0',
    ensures
        distance(c, Seq::empty(), s) == s.len() * c.insert,
        distance(c, s, Seq::empty()) == s.len() * c.insert,
        forall|k: int|
            0 <= k <= s.len() ==> #[trigger] cost_at(c, pad(Seq::empty()), pad(s), 0, k) == k
                * c.insert,
        forall|k: int|
            0 <= k <= s.len() ==> #[trigger] cost_at(c, pad(s), pad(Seq::empty()), k, 0) == k
                * c.insert,
{
    lemma_empty_column(c, s, s.len() as int);
    lemma_empty_row(c, s, s.len() as int);
    assert forall|k: int| 0 <= k <= s.len() implies #[trigger] cost_at(
        c,
        pad(Seq::empty()),
        pad(s),
        0,
        k,
    ) == k * c.insert by {
        lemma_empty_column(c, s, k);
    }
    assert forall|k: int| 0 <= k <= s.len() implies #[trigger] cost_at(
        c,
        pad(s),
        pad(Seq::empty()),
        k,
        0,
    ) == k * c.insert by {
        lemma_empty_row(c, s, k);
    }
}

/// For the empty sequence against `s` free of `'\0'`, in either order, only
/// the insert cost bounds the cells: when the length of `s` times its
/// magnitude fits in an `i32`, so does every cell.
pub proof fn lemma_empty_cells_fit(c: CostTable, s: Seq<char>)
    requires
        forall|i: int| 0 <= i < s.len() ==> s[i] != '\0',
        s.len() < i32::MAX,
        -i32::MAX <= s.len() * c.insert <= i32::MAX,
    ensures
        cells_fit(c, Seq::empty(), s),
        cells_fit(c, s, Seq::empty()),
{
    lemma_distance_from_empty(c, s);
    let n = s.len() as int;
    let i = c.insert;
    let e = Seq::<char>::empty();
    assert forall|x: int, y: int| 0 <= x <= e.len() && 0 <= y <= n implies i32::MIN
        <= #[trigger] cost_at(c, pad(e), pad(s), x, y) <= i32::MAX by {
        assert(-i32::MAX <= y * i <= i32::MAX) by (nonlinear_arith)
            requires
                0 <= y <= n,
                -i32::MAX <= n * i <= i32::MAX,
        ;
    }
    assert forall|x: int, y: int| 0 <= x <= n && 0 <= y <= e.len() implies i32::MIN
        <= #[trigger] cost_at(c, pad(s), pad(e), x, y) <= i32::MAX by {
        assert(-i32::MAX <= x * i <= i32::MAX) by (nonlinear_arith)
            requires
                0 <= x <= n,
                -i32::MAX <= n * i <= i32::MAX,
        ;
    }
}

} // verus!
