use master::hierarchy::would_cycle;

#[test]
fn a_node_cannot_become_its_own_descendant() {
    // 1 <- 2 <- 3: 1 is the root.
    let links = vec![(1u128, None), (2, Some(1)), (3, Some(2))];
    assert!(would_cycle(&links, 1, 3));
    assert!(would_cycle(&links, 1, 2));
    assert!(would_cycle(&links, 2, 2));
    assert!(!would_cycle(&links, 3, 1));
    assert!(would_cycle(&links, 2, 3));
    assert!(!would_cycle(&links, 4, 3));
}

#[test]
fn a_cycle_already_present_refuses_everything_above_it() {
    let links = vec![(1u128, Some(2)), (2, Some(1)), (3, None)];
    assert!(would_cycle(&links, 3, 1));
    assert!(!would_cycle(&links, 1, 3));
}
