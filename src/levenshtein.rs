//! The distance engine: fills the grid cell by cell and reports the result.
use vstd::prelude::*;

use crate::model::{
    candidate_of, cells_fit, cheapest, cost_at, delete_from, distance, insert_from, is_grid, pad,
    CostTable, INSERT, DELETE, MATCH, ONSET, REPLACE,
};
use crate::structures::{Costs, Mapping, Position, Results};

verus! {

/// Computes weighted edit distances with configurable insert, replace and
/// delete costs.
pub struct Levenshtein {
    costs: Costs,
}

impl View for Levenshtein {
    type V = CostTable;

    closed spec fn view(&self) -> CostTable {
        self.costs@
    }
}

/// Every cell of `map` before `(x, y)` in column-major order holds its value
/// under the costs `c`.
spec fn filled_before(map: &Mapping, c: CostTable, x: int, y: int) -> bool {
    forall|i: int, j: int|
        0 <= i < map.length.0 && 0 <= j < map.length.1 && (i < x || (i == x && j < y))
            ==> #[trigger] map.sequence@[j]@[i] as int == cost_at(
            c,
            map.letters(0),
            map.letters(1),
            i,
            j,
        )
}

impl Levenshtein {
    /// An engine with every configurable cost at 1.
    pub fn new() -> (r: Levenshtein)
        ensures
            r@ == (CostTable { insert: 1, replace: 1, delete: 1 }),
    {
        let costs: Costs = Costs::new();
        Levenshtein { costs }
    }

    pub fn set_insert_cost(&mut self, cost: i32)
        ensures
            final(self)@ == (CostTable { insert: cost as int, ..old(self)@ }),
    {
        self.costs.set_insert(cost);
    }

    pub fn set_replace_cost(&mut self, cost: i32)
        ensures
            final(self)@ == (CostTable { replace: cost as int, ..old(self)@ }),
    {
        self.costs.set_replace(cost);
    }

    pub fn set_delete_cost(&mut self, cost: i32)
        ensures
            final(self)@ == (CostTable { delete: cost as int, ..old(self)@ }),
    {
        self.costs.set_delete(cost);
    }

    /// The cost table, open to change.
    pub fn costs(&mut self) -> (r: &mut Costs)
        ensures
            r@ == old(self)@,
            final(self)@ == final(r)@,
    {
        &mut self.costs
    }

    /// The distance from `seq1` to `seq2` and the whole grid: one row per
    /// padded position of `seq2`, one column per padded position of `seq1`.
    pub fn calculate(&self, seq1: &str, seq2: &str) -> (r: Results)
        requires
            cells_fit(self@, seq1@, seq2@),
        ensures
            r@.0 as int == distance(self@, seq1@, seq2@),
            is_grid(r@.1, self@, seq1@, seq2@),
            r@.1[0][0] == 0,
    {
        let map: Mapping = self.calculate_map(seq1, seq2);
        let distance: i32 = map.distance();
        let sequence: Vec<Vec<i32>> = map.sequence;
        let results: Results = Results::new(distance, sequence);
        proof {
            let m = sequence.deep_view();
            assert forall|y: int| 0 <= y < m.len() implies #[trigger] m[y] == sequence@[y]@ by {
                assert(m[y] =~= sequence@[y]@);
            }
        }
        results
    }
}

impl Levenshtein {
    fn calculate_map(&self, seq1: &str, seq2: &str) -> (map: Mapping)
        requires
            cells_fit(self@, seq1@, seq2@),
        ensures
            map.wf(),
            map.length == ((seq1@.len() + 1) as usize, (seq2@.len() + 1) as usize),
            map.letters(0) == pad(seq1@),
            map.letters(1) == pad(seq2@),
            filled_before(&map, self@, map.length.0 as int, 0),
    {
        let mut map: Mapping = Mapping::new(seq1, seq2);
        let costs: [i32; 5] = self.costs.as_slice();
        let ghost c = self@;
        let ghost length = map.length;
        let ghost letters = (map.letters(0), map.letters(1));
        let columns: i32 = map.length.0 as i32;
        let rows: i32 = map.length.1 as i32;

        for x in 0..columns
            invariant
                map.wf(),
                map.length == length,
                length == ((seq1@.len() + 1) as usize, (seq2@.len() + 1) as usize),
                (map.letters(0), map.letters(1)) == letters,
                letters == (pad(seq1@), pad(seq2@)),
                columns == length.0,
                rows == length.1,
                c == self@,
                cells_fit(c, seq1@, seq2@),
                forall|code: int| 0 <= code < 5 ==> costs[code] as int == #[trigger] c.weight(code),
                filled_before(&map, c, x as int, 0),
        {
            for y in 0..rows
                invariant
                    map.wf(),
                    map.length == length,
                    length == ((seq1@.len() + 1) as usize, (seq2@.len() + 1) as usize),
                    (map.letters(0), map.letters(1)) == letters,
                    letters == (pad(seq1@), pad(seq2@)),
                    columns == length.0,
                    rows == length.1,
                    0 <= x < columns,
                    c == self@,
                    cells_fit(c, seq1@, seq2@),
                    forall|code: int|
                        0 <= code < 5 ==> costs[code] as int == #[trigger] c.weight(code),
                    filled_before(&map, c, x as int, y as int),
            {
                let values: [i32; 4] = self.dynamic_operations(x, y, &map);
                let value: i32 = values[2];
                let key: i32 = values[3];
                let cost: i32 = costs[key as usize];
                proof {
                    assert(i32::MIN <= cost_at(c, pad(seq1@), pad(seq2@), x as int, y as int)
                        <= i32::MAX);
                }
                let ghost before = map;
                map.sequence[y as usize][x as usize] = value + cost;
                proof {
                    assert forall|i: int, j: int|
                        0 <= i < map.length.0 && 0 <= j < map.length.1 && (i < x || (i == x && j
                            < y + 1)) implies #[trigger] map.sequence@[j]@[i] as int == cost_at(
                        c,
                        map.letters(0),
                        map.letters(1),
                        i,
                        j,
                    ) by {
                        if i != x || j != y {
                            assert(map.sequence@[j]@[i] == before.sequence@[j]@[i]);
                        }
                    }
                }
            }
        }

        map
    }

    /// The candidate with the smallest predecessor value among the valid ones,
    /// the earliest on ties.
    fn get_min_ops(&self, ops: [[i32; 4]; 3]) -> (r: [i32; 4])
        requires
            candidate_of(ops[0]).valid() || candidate_of(ops[1]).valid() || candidate_of(
                ops[2],
            ).valid(),
        ensures
            candidate_of(r) == cheapest(
                candidate_of(ops[0]),
                candidate_of(ops[1]),
                candidate_of(ops[2]),
            ),
            candidate_of(r).valid(),
    {
        let mut min_ops: [i32; 4] = ops[0];

        for i in 1..3usize
            invariant
                i == 1 ==> min_ops == ops[0],
                i == 2 ==> candidate_of(min_ops) == crate::model::better(
                    candidate_of(ops[0]),
                    candidate_of(ops[1]),
                ),
                i == 3 ==> candidate_of(min_ops) == cheapest(
                    candidate_of(ops[0]),
                    candidate_of(ops[1]),
                    candidate_of(ops[2]),
                ),
        {
            let op: [i32; 4] = ops[i];
            if op[0] >= 0 && op[1] >= 0 {
                if min_ops[0] < 0 || min_ops[1] < 0 {
                    min_ops = op;
                } else if op[2] < min_ops[2] {
                    min_ops = op;
                }
            }
        }

        min_ops
    }

    /// The candidate that decides a cell: the onset at the origin, the match
    /// when the two characters are equal, else the cheapest of insert, replace
    /// and delete.
    fn get_operations_array(
        &self,
        char1: char,
        char2: char,
        map: &Mapping,
        insert: Position,
        replace: Position,
        delete: Position,
    ) -> (r: [i32; 4])
        requires
            map.wf(),
            map.readable(replace.x as int, replace.y as int),
            !(replace.x == -1 && replace.y == -1) && char1 != char2 ==> map.readable(
                insert.x as int,
                insert.y as int,
            ) && map.readable(delete.x as int, delete.y as int) && (insert.x >= 0 && insert.y
                >= 0 || replace.x >= 0 && replace.y >= 0 || delete.x >= 0 && delete.y >= 0),
        ensures
            replace.x == -1 && replace.y == -1 ==> r@ == seq![0i32, 0, 0, ONSET],
            !(replace.x == -1 && replace.y == -1) && char1 == char2 ==> r@ == seq![
                replace.x,
                replace.y,
                map.stored(replace.x as int, replace.y as int),
                MATCH,
            ],
            !(replace.x == -1 && replace.y == -1) && char1 != char2 ==> candidate_of(r)
                == cheapest(
                map.candidate_at((insert.x as int, insert.y as int), INSERT as int),
                map.candidate_at((replace.x as int, replace.y as int), REPLACE as int),
                map.candidate_at((delete.x as int, delete.y as int), DELETE as int),
            ),
            !(replace.x == -1 && replace.y == -1) && char1 != char2 ==> candidate_of(r).valid(),
    {
        if replace.x == -1 && replace.y == -1 {
            return map.onset_array();
        } else if char1 == char2 {
            return map.match_array(&replace);
        }
        let ops: [[i32; 4]; 3] = [
            map.insert_array(&insert),
            map.replace_array(&replace),
            map.delete_array(&delete),
        ];
        self.get_min_ops(ops)
    }

    /// The candidate for cell `(x, y)`: the onset at the origin, the match
    /// from the diagonal when the two characters are equal, else the cheapest
    /// valid one of insert, replace and delete. Once every earlier cell holds
    /// its value, the candidate's value plus the weight of its operation is the
    /// value of `(x, y)`.
    fn dynamic_operations(&self, x: i32, y: i32, map: &Mapping) -> (r: [i32; 4])
        requires
            map.wf(),
            0 <= x < map.length.0,
            0 <= y < map.length.1,
        ensures
            0 <= r[3] < 5,
            x == 0 && y == 0 ==> r@ == seq![0i32, 0, 0, ONSET],
            !(x == 0 && y == 0) && map.letters(0)[x as int] == map.letters(1)[y as int] ==> r@
                == seq![(x - 1) as i32, (y - 1) as i32, map.stored(x - 1, y - 1), MATCH],
            !(x == 0 && y == 0) && map.letters(0)[x as int] != map.letters(1)[y as int]
                ==> candidate_of(r) == cheapest(
                map.candidate_at(
                    insert_from(map.length.0 as int, map.length.1 as int, x as int, y as int),
                    INSERT as int,
                ),
                map.candidate_at((x - 1, y - 1), REPLACE as int),
                map.candidate_at(
                    delete_from(map.length.0 as int, map.length.1 as int, x as int, y as int),
                    DELETE as int,
                ),
            ),
            !(x == 0 && y == 0) && map.letters(0)[x as int] != map.letters(1)[y as int] ==> (
            candidate_of(r).valid() && r[0] <= x && r[1] <= y && r[0] + r[1] < x + y),
            filled_before(map, self@, x as int, y as int) ==> r[2] as int + self@.weight(
                r[3] as int,
            ) == cost_at(self@, map.letters(0), map.letters(1), x as int, y as int),
    {
        let (_, char1): (usize, char) = map.lookup[0][x as usize];
        let (_, char2): (usize, char) = map.lookup[1][y as usize];

        let insert: Position = map.insert_position(x, y);
        let replace: Position = map.replace_position(x, y);
        let delete: Position = map.delete_position(x, y);

        let r = self.get_operations_array(char1, char2, map, insert, replace, delete);
        proof {
            let c = self@;
            let p1 = map.letters(0);
            let p2 = map.letters(1);
            assert(p1[x as int] == char1);
            assert(p2[y as int] == char2);
            assert(p1.len() == map.length.0 && p2.len() == map.length.1);
            if filled_before(map, c, x as int, y as int) {
                if x > 0 {
                    assert(map.stored(x - 1, y as int) as int == cost_at(
                        c,
                        p1,
                        p2,
                        x - 1,
                        y as int,
                    ));
                }
                if y > 0 {
                    assert(map.stored(x as int, y - 1) as int == cost_at(
                        c,
                        p1,
                        p2,
                        x as int,
                        y - 1,
                    ));
                }
                if x > 0 && y > 0 {
                    assert(map.stored(x - 1, y - 1) as int == cost_at(c, p1, p2, x - 1, y - 1));
                }
                let v = cost_at(c, p1, p2, x as int, y as int);
                if x == 0 && y == 0 {
                    assert(r[2] == 0 && r[3] == 0);
                } else if char1 == char2 {
                    assert(v == cost_at(c, p1, p2, x - 1, y - 1));
                    assert(r[3] == MATCH);
                } else {
                    let best = candidate_of(r);
                    assert(r[2] as int == best.value && r[3] as int == best.code);
                }
            }
        }
        r
    }
}

} // verus!
