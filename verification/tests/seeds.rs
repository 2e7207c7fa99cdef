use drysua::imitation_error::ImitationError;
use drysua::seeds::{SeedNamespace, SeedNamespaces};

#[test]
fn namespaces_are_sorted_and_searchable() {
    let seeds = SeedNamespaces::new(vec![5, 1, 3], vec![9], vec![7, 2]).unwrap();
    assert_eq!(seeds.training(), &[1, 3, 5]);
    assert_eq!(seeds.promotion(), &[2, 7]);
    assert!(seeds.contains(SeedNamespace::Training, 3));
    assert!(!seeds.contains(SeedNamespace::Training, 9));
    assert!(seeds.contains(SeedNamespace::Validation, 9));
}

#[test]
fn the_smallest_repeated_seed_is_reported() {
    assert_eq!(
        SeedNamespaces::new(vec![8, 4, 8, 4], vec![], vec![]),
        Err(ImitationError::DuplicateSeed { namespace: "training", seed: 4 })
    );
}

#[test]
fn the_smallest_shared_seed_is_reported() {
    assert_eq!(
        SeedNamespaces::new(vec![1], vec![6, 2], vec![2, 6]),
        Err(ImitationError::SeedOverlap { first: "validation", second: "promotion", seed: 2 })
    );
}

#[test]
fn oversized_namespace_is_refused() {
    assert_eq!(
        SeedNamespaces::new(vec![], (0..8193).collect(), vec![]),
        Err(ImitationError::SeedCapacity { namespace: "validation", count: 8193, maximum: 8192 })
    );
}
