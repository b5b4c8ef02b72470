//! The data the engine works on: the cost table, grid positions, the grid
//! itself and the results handed back to callers.
use vstd::prelude::*;

use crate::model::{insert_from, delete_from, pad, Candidate, CostTable, DELETE, INSERT, MATCH, ONSET, REPLACE};

verus! {

/// The outcome of a calculation: the distance and the whole grid.
pub struct Results {
    distance: i32,
    sequence: Vec<Vec<i32>>,
}

impl View for Results {
    type V = (i32, Seq<Seq<i32>>);

    closed spec fn view(&self) -> (i32, Seq<Seq<i32>>) {
        (self.distance, self.sequence.deep_view())
    }
}

impl Results {
    pub fn new(distance: i32, sequence: Vec<Vec<i32>>) -> (r: Self)
        ensures
            r@ == (distance, sequence.deep_view()),
    {
        Self { distance, sequence }
    }

    /// The distance: the value of the bottom-right cell.
    pub fn distance(&self) -> (r: i32)
        ensures
            r == self@.0,
    {
        self.distance
    }

    /// The grid, one row per padded position of the second sequence.
    pub fn sequence(&self) -> (r: &Vec<Vec<i32>>)
        ensures
            r.deep_view() == self@.1,
    {
        &self.sequence
    }
}

/// A cell coordinate; either part may be -1 for a predecessor off the grid.
pub struct Position {
    pub x: i32,
    pub y: i32,
}

impl Position {
    pub fn new(x: i32, y: i32) -> (r: Self)
        ensures
            r.x == x,
            r.y == y,
    {
        Self { x, y }
    }
}

/// The five operation weights. Onset and match are fixed at zero; insert,
/// replace and delete can be set to any value.
pub struct Costs {
    on_set: i32,
    on_match: i32,
    on_insert: i32,
    on_replace: i32,
    on_delete: i32,
}

impl View for Costs {
    type V = CostTable;

    closed spec fn view(&self) -> CostTable {
        CostTable {
            insert: self.on_insert as int,
            replace: self.on_replace as int,
            delete: self.on_delete as int,
        }
    }
}

impl Costs {
    #[verifier::type_invariant]
    spec fn fixed_weights_are_zero(&self) -> bool {
        self.on_set == 0 && self.on_match == 0
    }

    /// Every configurable weight is 1.
    pub fn new() -> (r: Self)
        ensures
            r@ == (CostTable { insert: 1, replace: 1, delete: 1 }),
    {
        let on_set: i32 = 0;
        let on_match: i32 = 0;
        let on_insert: i32 = 1;
        let on_replace: i32 = 1;
        let on_delete: i32 = 1;

        Self { on_set, on_match, on_insert, on_replace, on_delete }
    }

    pub fn set_insert(&mut self, value: i32)
        ensures
            final(self)@ == (CostTable { insert: value as int, ..old(self)@ }),
    {
        proof {
            use_type_invariant(&*self);
        }
        self.on_insert = value;
    }

    pub fn set_replace(&mut self, value: i32)
        ensures
            final(self)@ == (CostTable { replace: value as int, ..old(self)@ }),
    {
        proof {
            use_type_invariant(&*self);
        }
        self.on_replace = value;
    }

    pub fn set_delete(&mut self, value: i32)
        ensures
            final(self)@ == (CostTable { delete: value as int, ..old(self)@ }),
    {
        proof {
            use_type_invariant(&*self);
        }
        self.on_delete = value;
    }

    /// The weights indexed by operation code: onset, match, insert, replace,
    /// delete.
    pub fn as_slice(&self) -> (r: [i32; 5])
        ensures
            forall|code: int| 0 <= code < 5 ==> r[code] as int == #[trigger] self@.weight(code),
    {
        proof {
            use_type_invariant(self);
        }
        let slice: [i32; 5] = [
            self.on_set,
            self.on_match,
            self.on_insert,
            self.on_replace,
            self.on_delete,
        ];
        slice
    }
}

/// The grid under construction, with the padded lengths and, for each
/// sequence, its characters by index.
pub struct Mapping {
    pub length: (usize, usize),
    pub sequence: Vec<Vec<i32>>,
    pub lookup: Vec<Vec<(usize, char)>>,
}

/// Each character of `s` paired with its index.
pub open spec fn indexed(s: Seq<char>) -> Seq<(usize, char)> {
    Seq::new(s.len(), |i: int| (i as usize, s[i]))
}

impl Mapping {
    /// The grid has `length.1` rows of `length.0` cells, and there is one
    /// lookup table per axis.
    pub open spec fn wf(&self) -> bool {
        &&& self.sequence@.len() == self.length.1
        &&& forall|y: int|
            0 <= y < self.length.1 ==> #[trigger] self.sequence@[y]@.len() == self.length.0
        &&& self.lookup@.len() == 2
        &&& self.lookup@[0]@.len() == self.length.0
        &&& self.lookup@[1]@.len() == self.length.1
    }

    /// The padded characters along axis `k` (0: columns, 1: rows).
    pub open spec fn letters(&self, k: int) -> Seq<char> {
        self.lookup@[k]@.map_values(|p: (usize, char)| p.1)
    }

    /// The stored value at `(x, y)`, or 0 off the top or left border.
    pub open spec fn stored(&self, x: int, y: int) -> i32 {
        if x < 0 || y < 0 {
            0
        } else {
            self.sequence@[y]@[x]
        }
    }

    /// Position `(x, y)` can be read: it is on the grid, or one of its
    /// coordinates is negative (and it reads as 0).
    pub open spec fn readable(&self, x: int, y: int) -> bool {
        x >= 0 && y >= 0 ==> x < self.length.0 && y < self.length.1
    }

    /// The candidate at position `p` with operation `code`, holding the value
    /// stored there.
    pub open spec fn candidate_at(&self, p: (int, int), code: int) -> Candidate {
        Candidate { x: p.0, y: p.1, value: self.stored(p.0, p.1) as int, code }
    }

    /// The sequence with a leading sentinel.
    fn proc_sequence(seq: &str) -> (r: Vec<char>)
        ensures
            r@ == pad(seq@),
    {
        let mut r: Vec<char> = Vec::new();
        r.push('\0');
        for letter in it: seq.chars()
            invariant
                r@ == seq!['\0'] + it.seq().take(it.index() as int),
        {
            r.push(letter);
        }
        r
    }

    /// Appends a table of the characters of `seq` by index.
    fn proc_lookup(lookup: &mut Vec<Vec<(usize, char)>>, seq: &Vec<char>)
        ensures
            final(lookup)@ == old(lookup)@.push(final(lookup)@.last()),
            final(lookup)@.last()@ == indexed(seq@),
    {
        let mut char_lookup: Vec<(usize, char)> = Vec::with_capacity(seq.len());
        for l_index in 0..seq.len()
            invariant
                char_lookup@ == indexed(seq@.take(l_index as int)),
        {
            char_lookup.push((l_index, seq[l_index]));
            proof {
                assert(indexed(seq@.take(l_index + 1)) =~= indexed(seq@.take(l_index as int)).push(
                    (l_index, seq@[l_index as int]),
                ));
            }
        }
        proof {
            assert(seq@.take(seq@.len() as int) =~= seq@);
        }
        lookup.push(char_lookup);
    }
}

impl Mapping {
    /// A zero grid over the two padded sequences.
    pub fn new(seq1: &str, seq2: &str) -> (r: Self)
        ensures
            r.wf(),
            r.length == ((seq1@.len() + 1) as usize, (seq2@.len() + 1) as usize),
            r.lookup@[0]@ == indexed(pad(seq1@)),
            r.lookup@[1]@ == indexed(pad(seq2@)),
            r.letters(0) == pad(seq1@),
            r.letters(1) == pad(seq2@),
            forall|y: int, x: int|
                0 <= y < r.length.1 && 0 <= x < r.length.0 ==> #[trigger] r.sequence@[y]@[x]
                    == 0,
    {
        let seq1: Vec<char> = Self::proc_sequence(seq1);
        let seq2: Vec<char> = Self::proc_sequence(seq2);
        let length: (usize, usize) = (seq1.len(), seq2.len());

        let mut sequence: Vec<Vec<i32>> = Vec::with_capacity(length.1);
        for y in 0..length.1
            invariant
                sequence@.len() == y,
                forall|j: int| 0 <= j < y ==> #[trigger] sequence@[j]@ == Seq::new(length.0 as nat, |i: int| 0i32),
        {
            let mut row: Vec<i32> = Vec::with_capacity(length.0);
            for x in 0..length.0
                invariant
                    row@ == Seq::new(x as nat, |i: int| 0i32),
            {
                row.push(0);
                proof {
                    assert(row@ =~= Seq::new((x + 1) as nat, |i: int| 0i32));
                }
            }
            sequence.push(row);
        }
        let mut lookup: Vec<Vec<(usize, char)>> = Vec::with_capacity(2);

        Self::proc_lookup(&mut lookup, &seq1);
        Self::proc_lookup(&mut lookup, &seq2);

        let r = Self { length, sequence, lookup };
        proof {
            assert(r.letters(0) =~= seq1@);
            assert(r.letters(1) =~= seq2@);
        }
        r
    }

    /// The value of the bottom-right cell.
    pub fn distance(&self) -> (r: i32)
        requires
            self.wf(),
            self.length.0 >= 1,
            self.length.1 >= 1,
        ensures
            r == self.stored(self.length.0 - 1, self.length.1 - 1),
    {
        let (l1, l2): (usize, usize) = self.length;
        self.sequence[l2 - 1][l1 - 1]
    }

    /// The stored value at `position`, or 0 when either coordinate is
    /// negative.
    pub fn value(&self, position: &Position) -> (r: i32)
        requires
            self.wf(),
            self.readable(position.x as int, position.y as int),
        ensures
            r == self.stored(position.x as int, position.y as int),
    {
        let (x, y) = (position.x, position.y);
        if x >= 0 && y >= 0 {
            return self.sequence[y as usize][x as usize];
        }
        0
    }

    /// The insert predecessor of `(x, y)`: one row back when the first padded
    /// sequence is the shorter one, one column back otherwise.
    pub fn insert_position(&self, x: i32, y: i32) -> (r: Position)
        requires
            x > i32::MIN,
            y > i32::MIN,
        ensures
            (r.x as int, r.y as int) == insert_from(
                self.length.0 as int,
                self.length.1 as int,
                x as int,
                y as int,
            ),
    {
        if self.length.0 < self.length.1 {
            return Position::new(x, y - 1);
        }
        Position::new(x - 1, y)
    }

    /// The replace predecessor of `(x, y)`: the diagonal cell.
    pub fn replace_position(&self, x: i32, y: i32) -> (r: Position)
        requires
            x > i32::MIN,
            y > i32::MIN,
        ensures
            r.x == x - 1,
            r.y == y - 1,
    {
        Position::new(x - 1, y - 1)
    }

    /// The delete predecessor of `(x, y)`: the axis that insert does not use.
    pub fn delete_position(&self, x: i32, y: i32) -> (r: Position)
        requires
            x > i32::MIN,
            y > i32::MIN,
        ensures
            (r.x as int, r.y as int) == delete_from(
                self.length.0 as int,
                self.length.1 as int,
                x as int,
                y as int,
            ),
    {
        if self.length.0 < self.length.1 {
            return Position::new(x - 1, y);
        }
        Position::new(x, y - 1)
    }

    /// The candidate of the origin cell.
    pub fn onset_array(&self) -> (r: [i32; 4])
        ensures
            r@ == seq![0i32, 0, 0, ONSET],
    {
        [0, 0, 0, ONSET]
    }

    /// The match candidate, which moves from the diagonal cell.
    pub fn match_array(&self, replace: &Position) -> (r: [i32; 4])
        requires
            self.wf(),
            self.readable(replace.x as int, replace.y as int),
        ensures
            r@ == seq![replace.x, replace.y, self.stored(replace.x as int, replace.y as int), MATCH],
    {
        let value: i32 = self.value(replace);
        [replace.x, replace.y, value, MATCH]
    }

    /// The insert candidate.
    pub fn insert_array(&self, insert: &Position) -> (r: [i32; 4])
        requires
            self.wf(),
            self.readable(insert.x as int, insert.y as int),
        ensures
            r@ == seq![insert.x, insert.y, self.stored(insert.x as int, insert.y as int), INSERT],
    {
        let value: i32 = self.value(insert);
        [insert.x, insert.y, value, INSERT]
    }

    /// The replace candidate.
    pub fn replace_array(&self, replace: &Position) -> (r: [i32; 4])
        requires
            self.wf(),
            self.readable(replace.x as int, replace.y as int),
        ensures
            r@ == seq![
                replace.x,
                replace.y,
                self.stored(replace.x as int, replace.y as int),
                REPLACE,
            ],
    {
        let value: i32 = self.value(replace);
        [replace.x, replace.y, value, REPLACE]
    }

    /// The delete candidate.
    pub fn delete_array(&self, delete: &Position) -> (r: [i32; 4])
        requires
            self.wf(),
            self.readable(delete.x as int, delete.y as int),
        ensures
            r@ == seq![delete.x, delete.y, self.stored(delete.x as int, delete.y as int), DELETE],
    {
        let value: i32 = self.value(delete);
        [delete.x, delete.y, value, DELETE]
    }
}

} // verus!
