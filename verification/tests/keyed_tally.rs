use lib::keyed_tally::KeyedTally;

#[test]
fn ranked_puts_the_largest_count_first_and_keeps_ties_in_first_seen_order() {
    let mut t = KeyedTally::new();
    t.record("a", 1, "first a");
    t.record("b", 2, "first b");
    t.record("c", 3, "first c");
    t.record("b", 4, "second b");
    t.record("c", 5, "second c");
    t.record("c", 6, "third c");
    t.record("d", 7, "first d");
    // Counts: a=1, b=2, c=3, d=1.
    let r = t.ranked();
    assert_eq!(r, vec![2, 1, 0, 3]);
    let (key, count, sum, example) = t.entry(r[0]);
    assert_eq!((key, count, sum, example), ("c", 3, 14, "first c"));
}

#[test]
fn ranked_of_an_empty_tally_is_empty() {
    let t = KeyedTally::new();
    assert!(t.ranked().is_empty());
}
