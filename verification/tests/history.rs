use sanctum::merkle_root_history::MerkleRootHistory;

fn root(k: u32) -> (String, String) {
    (format!("x{}", k), format!("y{}", k))
}

#[test]
fn empty_history_knows_nothing() {
    let history = MerkleRootHistory::new(30);
    assert_eq!(history.root_history_size(), 30);
    assert_eq!(history.get_latest_root(), None);
    assert!(!history.is_known_root(&root(0)));
}

#[test]
fn latest_root_is_the_last_inserted() {
    let mut history = MerkleRootHistory::new(3);
    for k in 0..10 {
        history.insert(&root(k));
        assert_eq!(history.get_latest_root(), Some(root(k)));
    }
}

#[test]
fn history_retains_as_many_roots_as_inserted_up_to_its_size() {
    let mut history = MerkleRootHistory::new(4);
    for k in 0..11u32 {
        history.insert(&root(k));
        let inserted = k + 1;
        let known = (0..inserted).filter(|j| history.is_known_root(&root(*j))).count() as u32;
        assert_eq!(known, inserted.min(4));
        for j in 0..inserted {
            assert_eq!(history.is_known_root(&root(j)), j + 4 >= inserted);
        }
    }
}

#[test]
fn both_coordinates_must_match() {
    let mut history = MerkleRootHistory::new(2);
    history.insert(&("a".to_string(), "b".to_string()));
    assert!(history.is_known_root(&("a".to_string(), "b".to_string())));
    assert!(!history.is_known_root(&("a".to_string(), "c".to_string())));
    assert!(!history.is_known_root(&("c".to_string(), "b".to_string())));
    assert!(!history.is_known_root(&("b".to_string(), "a".to_string())));
}

#[test]
fn full_ring_still_reports_its_latest_root() {
    // after exactly as many insertions as there are slots the next slot is the first again
    let mut history = MerkleRootHistory::new(3);
    for k in 0..3 {
        history.insert(&root(k));
    }
    assert_eq!(history.get_latest_root(), Some(root(2)));
    assert!(history.is_known_root(&root(0)));
    history.insert(&root(3));
    assert!(!history.is_known_root(&root(0)));
    assert_eq!(history.get_latest_root(), Some(root(3)));
}
