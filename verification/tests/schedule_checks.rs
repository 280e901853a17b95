// Checks of the pairwise interaction schedule: partner lists, the
// single-visit property on concrete sizes, and the pair count.

use nbody::schedule::interaction_count;
use nbody::schedule::interaction_partners;

#[test]
fn partners_are_the_strictly_larger_indices() {
    assert_eq!(interaction_partners(5, 0), vec![1, 2, 3, 4]);
    assert_eq!(interaction_partners(5, 2), vec![3, 4]);
    assert_eq!(interaction_partners(5, 4), Vec::<usize>::new());
    assert_eq!(interaction_partners(2, 0), vec![1]);
    assert_eq!(interaction_partners(1, 0), Vec::<usize>::new());
}

#[test]
fn full_sweep_visits_each_pair_exactly_once() {
    for n in 0..=10usize {
        let mut seen = std::collections::HashSet::new();
        let mut count: usize = 0;
        for i in 0..n {
            for j in interaction_partners(n, i) {
                assert!(i < j && j < n);
                assert!(seen.insert((i, j)), "pair ({i}, {j}) scheduled twice");
                count += 1;
            }
        }
        assert_eq!(count, n * (n - 1) / 2);
        assert_eq!(interaction_count(n), count);
        for a in 0..n {
            for b in (a + 1)..n {
                assert!(seen.contains(&(a, b)), "pair ({a}, {b}) never scheduled");
            }
        }
    }
}
