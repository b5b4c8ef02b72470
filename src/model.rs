//! Mathematical model of the weighted edit-distance grid.
//!
//! A sequence is padded with a leading `'\0'`, so that index 0 of each axis
//! stands for "no character consumed yet". Column `x` of the grid follows the
//! first padded sequence, row `y` the second one.
use vstd::prelude::*;

verus! {

/// Operation code of the origin cell.
pub const ONSET: i32 = 0;

/// Operation code of a cell whose two characters are equal.
pub const MATCH: i32 = 1;

/// Operation code of an insertion.
pub const INSERT: i32 = 2;

/// Operation code of a replacement.
pub const REPLACE: i32 = 3;

/// Operation code of a deletion.
pub const DELETE: i32 = 4;

/// The weights of the three configurable operations. Onset and match always
/// weigh nothing.
pub struct CostTable {
    pub insert: int,
    pub replace: int,
    pub delete: int,
}

impl CostTable {
    /// Weight of the operation with the given code.
    pub open spec fn weight(self, code: int) -> int {
        if code == INSERT {
            self.insert
        } else if code == REPLACE {
            self.replace
        } else if code == DELETE {
            self.delete
        } else {
            0
        }
    }

    /// Largest magnitude among the configurable weights.
    pub open spec fn magnitude(self) -> int {
        let i = if self.insert < 0 { -self.insert } else { self.insert };
        let r = if self.replace < 0 { -self.replace } else { self.replace };
        let d = if self.delete < 0 { -self.delete } else { self.delete };
        if i >= r && i >= d {
            i
        } else if r >= d {
            r
        } else {
            d
        }
    }
}

/// A sequence with the leading sentinel.
pub open spec fn pad(s: Seq<char>) -> Seq<char> {
    seq!['\0'] + s
}

/// Where the insert predecessor of `(x, y)` lies, for padded lengths `la`
/// (columns) and `lb` (rows).
pub open spec fn insert_from(la: int, lb: int, x: int, y: int) -> (int, int) {
    if la < lb {
        (x, y - 1)
    } else {
        (x - 1, y)
    }
}

/// Where the delete predecessor of `(x, y)` lies: the other axis.
pub open spec fn delete_from(la: int, lb: int, x: int, y: int) -> (int, int) {
    if la < lb {
        (x - 1, y)
    } else {
        (x, y - 1)
    }
}

/// A candidate predecessor: its coordinates, its value and the code of the
/// operation that moves from it.
pub struct Candidate {
    pub x: int,
    pub y: int,
    pub value: int,
    pub code: int,
}

impl Candidate {
    /// A predecessor exists only inside the grid.
    pub open spec fn valid(self) -> bool {
        self.x >= 0 && self.y >= 0
    }
}

/// The candidate that an array `[x, y, value, code]` stands for.
pub open spec fn candidate_of(op: [i32; 4]) -> Candidate {
    Candidate { x: op[0] as int, y: op[1] as int, value: op[2] as int, code: op[3] as int }
}

/// `next` replaces `best` when it is valid and `best` is not, or when both
/// are valid and `next` is strictly cheaper; earlier candidates win ties.
pub open spec fn better(best: Candidate, next: Candidate) -> Candidate {
    if next.valid() && (!best.valid() || next.value < best.value) {
        next
    } else {
        best
    }
}

/// The chosen predecessor among insert, replace and delete, in that order.
pub open spec fn cheapest(ins: Candidate, rep: Candidate, del: Candidate) -> Candidate {
    better(better(ins, rep), del)
}

/// The value of cell `(x, y)` of the grid over the padded sequences `p1`
/// (columns) and `p2` (rows). Cells outside the grid read as 0.
pub open spec fn cost_at(c: CostTable, p1: Seq<char>, p2: Seq<char>, x: int, y: int) -> int
    decreases x + y + 2,
{
    if x < 0 || y < 0 || x >= p1.len() || y >= p2.len() {
        0
    } else if x == 0 && y == 0 {
        0
    } else if p1[x] == p2[y] {
        cost_at(c, p1, p2, x - 1, y - 1)
    } else {
        let left = cost_at(c, p1, p2, x - 1, y);
        let up = cost_at(c, p1, p2, x, y - 1);
        let diagonal = cost_at(c, p1, p2, x - 1, y - 1);
        let rep = Candidate { x: x - 1, y: y - 1, value: diagonal, code: REPLACE as int };
        let best = if p1.len() < p2.len() {
            cheapest(
                Candidate { x, y: y - 1, value: up, code: INSERT as int },
                rep,
                Candidate { x: x - 1, y, value: left, code: DELETE as int },
            )
        } else {
            cheapest(
                Candidate { x: x - 1, y, value: left, code: INSERT as int },
                rep,
                Candidate { x, y: y - 1, value: up, code: DELETE as int },
            )
        };
        best.value + c.weight(best.code)
    }
}

/// The edit distance from `a` to `b`: the bottom-right cell of the grid.
pub open spec fn distance(c: CostTable, a: Seq<char>, b: Seq<char>) -> int {
    cost_at(c, pad(a), pad(b), a.len() as int, b.len() as int)
}

/// `m` is the whole grid for `a` and `b`: one row per padded position of `b`,
/// one column per padded position of `a`, each cell holding its value.
pub open spec fn is_grid(m: Seq<Seq<i32>>, c: CostTable, a: Seq<char>, b: Seq<char>) -> bool {
    &&& m.len() == b.len() + 1
    &&& forall|y: int| 0 <= y < m.len() ==> #[trigger] m[y].len() == a.len() + 1
    &&& forall|y: int, x: int|
        0 <= y < m.len() && 0 <= x < m[y].len() ==> #[trigger] m[y][x] == cost_at(
            c,
            pad(a),
            pad(b),
            x,
            y,
        )
}

/// Both padded lengths fit in an `i32`, and so does every cell of the grid
/// of `a` against `b`.
pub open spec fn cells_fit(c: CostTable, a: Seq<char>, b: Seq<char>) -> bool {
    &&& a.len() < i32::MAX
    &&& b.len() < i32::MAX
    &&& forall|x: int, y: int|
        0 <= x <= a.len() && 0 <= y <= b.len() ==> i32::MIN <= #[trigger] cost_at(
            c,
            pad(a),
            pad(b),
            x,
            y,
        ) <= i32::MAX
}

/// The sum of the input lengths times the largest weight fits in an `i32`,
/// and so does every padded length.
pub open spec fn fits(c: CostTable, a: Seq<char>, b: Seq<char>) -> bool {
    &&& a.len() < i32::MAX
    &&& b.len() < i32::MAX
    &&& (a.len() + b.len()) * c.magnitude() <= i32::MAX
}

/// Every cell is bounded in magnitude by its distance from the origin times
/// the largest weight.
pub proof fn lemma_cost_bound(c: CostTable, p1: Seq<char>, p2: Seq<char>, x: int, y: int)
    requires
        x >= 0,
        y >= 0,
    ensures
        -((x + y) * c.magnitude()) <= cost_at(c, p1, p2, x, y) <= (x + y) * c.magnitude(),
    decreases x + y,
{
    let m = c.magnitude();
    assert(m >= 0);
    if x < p1.len() && y < p2.len() && (x > 0 || y > 0) {
        let k = x + y - 1;
        assert(k * m >= 0) by (nonlinear_arith)
            requires
                k >= 0,
                m >= 0,
        ;
        assert(k * m + m == (x + y) * m) by (nonlinear_arith)
            requires
                k == x + y - 1,
        ;
        if x > 0 {
            lemma_cost_bound(c, p1, p2, x - 1, y);
        }
        if y > 0 {
            lemma_cost_bound(c, p1, p2, x, y - 1);
        }
        if x > 0 && y > 0 {
            lemma_cost_bound(c, p1, p2, x - 1, y - 1);
            assert((k - 1) * m <= k * m) by (nonlinear_arith)
                requires
                    m >= 0,
            ;
        }
        let left = cost_at(c, p1, p2, x - 1, y);
        let up = cost_at(c, p1, p2, x, y - 1);
        let diagonal = cost_at(c, p1, p2, x - 1, y - 1);
        assert(-(k * m) <= left <= k * m);
        assert(-(k * m) <= up <= k * m);
        assert(-(k * m) <= diagonal <= k * m);
    } else {
        assert((x + y) * m >= 0) by (nonlinear_arith)
            requires
                x + y >= 0,
                m >= 0,
        ;
    }
}

/// A bound that is easy to check: when the sum of the input lengths times
/// the largest weight fits in an `i32`, so does every cell.
pub proof fn lemma_fits_cells(c: CostTable, a: Seq<char>, b: Seq<char>)
    requires
        fits(c, a, b),
    ensures
        cells_fit(c, a, b),
{
    let m = c.magnitude();
    assert forall|x: int, y: int| 0 <= x <= a.len() && 0 <= y <= b.len() implies i32::MIN
        <= #[trigger] cost_at(c, pad(a), pad(b), x, y) <= i32::MAX by {
        lemma_cost_bound(c, pad(a), pad(b), x, y);
        let s = a.len() + b.len();
        assert((x + y) * m <= s * m) by (nonlinear_arith)
            requires
                0 <= x + y <= s,
                m >= 0,
        ;
    }
}

} // verus!
