use leven_distance::Costs;
use leven_distance::Levenshtein;
use leven_distance::Mapping;
use leven_distance::Position;
use leven_distance::Results;

fn distance_with(seq1: &str, seq2: &str, insert: i32, replace: i32, delete: i32) -> i32 {
    let mut lev = Levenshtein::new();
    lev.set_insert_cost(insert);
    lev.set_replace_cost(replace);
    lev.set_delete_cost(delete);
    lev.calculate(seq1, seq2).distance()
}

fn default_distance(seq1: &str, seq2: &str) -> i32 {
    Levenshtein::new().calculate(seq1, seq2).distance()
}

#[test]
fn kitten_sitting() {
    assert_eq!(default_distance("kitten", "sitting"), 3);
}

#[test]
fn test_text() {
    assert_eq!(default_distance("test", "text"), 1);
}

#[test]
fn both_empty() {
    let results = Levenshtein::new().calculate("", "");
    assert_eq!(results.distance(), 0);
    assert_eq!(results.sequence(), &vec![vec![0]]);
}

#[test]
fn against_empty() {
    assert_eq!(default_distance("abc", ""), 3);
    assert_eq!(default_distance("", "abc"), 3);
}

#[test]
fn some_other_sequence_with_costs() {
    assert_eq!(default_distance("some_sequence", "other_sequence"), 4);
    assert_eq!(distance_with("some_sequence", "other_sequence", 1, 2, 1), 5);
}

#[test]
fn full_grid_of_test_text() {
    let results = Levenshtein::new().calculate("test", "text");
    let expected: Vec<Vec<i32>> = vec![
        vec![0, 1, 2, 3, 4],
        vec![1, 0, 1, 2, 3],
        vec![2, 1, 0, 1, 2],
        vec![3, 2, 1, 1, 2],
        vec![4, 3, 2, 2, 1],
    ];
    assert_eq!(results.sequence(), &expected);
}

#[test]
fn grid_shape_follows_the_inputs() {
    let results = Levenshtein::new().calculate("ab", "b");
    assert_eq!(results.sequence(), &vec![vec![0, 1, 2], vec![1, 1, 1]]);
    assert_eq!(results.distance(), 1);
}

#[test]
fn same_sequence_is_at_distance_zero() {
    for s in ["", "a", "kitten", "some_sequence", "\0x\0"] {
        assert_eq!(default_distance(s, s), 0);
        assert_eq!(distance_with(s, s, 7, -3, 2), 0);
    }
}

#[test]
fn symmetric_with_equal_insert_and_delete() {
    let pairs = [("kitten", "sitting"), ("test", "text"), ("abc", ""), ("ab", "xyz")];
    for (a, b) in pairs {
        assert_eq!(default_distance(a, b), default_distance(b, a));
        assert_eq!(distance_with(a, b, 2, 5, 2), distance_with(b, a, 2, 5, 2));
    }
    assert_eq!(distance_with("kitten", "sitting", 2, 1, 1), 4);
    assert_eq!(distance_with("sitting", "kitten", 2, 1, 1), 4);
}

#[test]
fn equal_lengths_break_ties_by_direction() {
    assert_eq!(distance_with("aab", "bac", 1, 3, 1), 6);
    assert_eq!(distance_with("bac", "aab", 1, 3, 1), 4);
}

#[test]
fn empty_against_sequence_costs_insertions() {
    assert_eq!(distance_with("", "abc", 2, 1, 1), 6);
    assert_eq!(distance_with("abc", "", 2, 1, 5), 6);
    assert_eq!(distance_with("abc", "", 1, 1, 5), 3);
}

#[test]
fn sentinel_character_in_input_matches_the_border() {
    assert_eq!(default_distance("", "\0a"), 1);
}

#[test]
fn origin_cell_is_zero_whatever_the_costs() {
    for (i, r, d) in [(1, 1, 1), (5, -2, 3), (-4, 0, 9)] {
        let mut lev = Levenshtein::new();
        lev.set_insert_cost(i);
        lev.set_replace_cost(r);
        lev.set_delete_cost(d);
        let results: Results = lev.calculate("abc", "xy");
        assert_eq!(results.sequence()[0][0], 0);
    }
}

#[test]
fn negative_and_zero_costs_are_accepted() {
    let results = {
        let mut lev = Levenshtein::new();
        lev.set_delete_cost(-1);
        lev.calculate("ab", "xyz")
    };
    assert_eq!(results.distance(), 1);
    assert_eq!(
        results.sequence(),
        &vec![vec![0, -1, -2], vec![1, 0, -1], vec![2, 1, 0], vec![3, 2, 1]]
    );
    assert_eq!(distance_with("abc", "abd", 1, 0, 1), 0);
    assert_eq!(distance_with("kitten", "sitting", 0, 0, 0), 0);
}

#[test]
fn costs_through_the_engine() {
    let mut lev = Levenshtein::new();
    lev.costs().set_insert(2);
    assert_eq!(lev.calculate("", "abc").distance(), 6);
    assert_eq!(lev.costs().as_slice(), [0, 0, 2, 1, 1]);
}

#[test]
fn cost_table_order_and_setters() {
    let mut costs = Costs::new();
    assert_eq!(costs.as_slice(), [0, 0, 1, 1, 1]);
    costs.set_insert(4);
    costs.set_replace(5);
    costs.set_delete(-6);
    assert_eq!(costs.as_slice(), [0, 0, 4, 5, -6]);
}

#[test]
fn results_hold_what_they_were_given() {
    let results = Results::new(3, vec![vec![0, 1, 2], vec![1, 2, 3]]);
    assert_eq!(results.distance(), 3);
    assert_eq!(results.sequence(), &vec![vec![0, 1, 2], vec![1, 2, 3]]);
}

#[test]
fn mapping_starts_as_a_zero_grid() {
    let map = Mapping::new("ab", "xyz");
    assert_eq!(map.length, (3, 4));
    assert_eq!(map.sequence, vec![vec![0, 0, 0]; 4]);
    assert_eq!(map.lookup[0], vec![(0, '\0'), (1, 'a'), (2, 'b')]);
    assert_eq!(map.lookup[1], vec![(0, '\0'), (1, 'x'), (2, 'y'), (3, 'z')]);
    assert_eq!(map.distance(), 0);
}

#[test]
fn mapping_predecessors_follow_the_shorter_axis() {
    let narrow = Mapping::new("ab", "xyz");
    let p = narrow.insert_position(2, 3);
    assert_eq!((p.x, p.y), (2, 2));
    let p = narrow.delete_position(2, 3);
    assert_eq!((p.x, p.y), (1, 3));
    let p = narrow.replace_position(2, 3);
    assert_eq!((p.x, p.y), (1, 2));

    let wide = Mapping::new("abc", "xy");
    let p = wide.insert_position(2, 1);
    assert_eq!((p.x, p.y), (1, 1));
    let p = wide.delete_position(2, 1);
    assert_eq!((p.x, p.y), (2, 0));
}

#[test]
fn mapping_candidates_read_the_grid() {
    let mut map = Mapping::new("ab", "xy");
    map.sequence[1][1] = 7;
    let inside = Position::new(1, 1);
    let outside = Position::new(-1, 0);
    assert_eq!(map.value(&inside), 7);
    assert_eq!(map.value(&outside), 0);
    assert_eq!(map.onset_array(), [0, 0, 0, 0]);
    assert_eq!(map.match_array(&inside), [1, 1, 7, 1]);
    assert_eq!(map.insert_array(&inside), [1, 1, 7, 2]);
    assert_eq!(map.replace_array(&inside), [1, 1, 7, 3]);
    assert_eq!(map.delete_array(&outside), [-1, 0, 0, 4]);
    map.sequence[2][2] = 9;
    assert_eq!(map.distance(), 9);
}

#[test]
fn value_reads_zero_for_any_negative_coordinate() {
    let mut map = Mapping::new("ab", "xy");
    map.sequence[0][2] = 5;
    assert_eq!(map.value(&Position::new(-3, 0)), 0);
    assert_eq!(map.value(&Position::new(-1, 40)), 0);
    assert_eq!(map.value(&Position::new(2, -9)), 0);
    assert_eq!(map.value(&Position::new(2, 0)), 5);
    assert_eq!(map.insert_array(&Position::new(-3, 1)), [-3, 1, 0, 2]);
}

#[test]
fn empty_against_sequence_ignores_unused_costs() {
    assert_eq!(distance_with("", "ab", 1, i32::MIN, i32::MAX), 2);
    assert_eq!(distance_with("ab", "", 3, i32::MAX, i32::MIN), 6);
}

#[test]
fn unequal_lengths_are_symmetric_under_any_costs() {
    for (a, b) in [("abc", "xbcde"), ("kitten", "sitting"), ("", "q"), ("aab", "ba")] {
        assert_eq!(distance_with(a, b, 3, -2, 7), distance_with(b, a, 3, -2, 7));
        assert_eq!(distance_with(a, b, 1, 4, 9), distance_with(b, a, 1, 4, 9));
    }
}
