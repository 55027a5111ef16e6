use sanctum::frontier_merkle_tree::{zeros, FrontierMerkleTreeWithHistory};
use sanctum::hash::{compute_leaf_hash, digest};

fn hex(bytes: &[u8]) -> String {
    let mut out = String::new();
    for b in bytes {
        out.push_str(&format!("{:02x}", b));
    }
    out
}

#[test]
fn digest_of_abc() {
    assert_eq!(
        hex(&digest(b"abc")),
        "ba7816bf8f01cfea414140de5dae2223b00361a396177a9cb410ff61f20015ad"
    );
    assert_eq!(digest(b"abc").len(), 32);
}

#[test]
fn leaf_hash_frames_the_leaf() {
    // the digest is taken over the length, eight bytes little-endian, and the bytes
    assert_eq!(
        hex(&compute_leaf_hash(b"abc")),
        "ce91dc5eec0139adf091900d225971d6ad246a845bad791b5693a9d0d55dd391"
    );
    assert_eq!(
        hex(&compute_leaf_hash(&[0u8; 32])),
        "80d4eec588827fa3aa4e3fc96d9c1319dd5b26397a2729137b2042f83121d74b"
    );
    assert_ne!(compute_leaf_hash(b"abc"), digest(b"abc"));
}

#[test]
fn empty_subtree_table() {
    assert_eq!(
        hex(&zeros(0)),
        "66687aadf862bd776c8fc18b8e9f8e20089714856ee233b3902a591d0d5f2925"
    );
    assert_eq!(
        hex(&zeros(1)),
        "2eeb74a6177f588d80c0c752b99556902ddf9682d0b906f5aa2adbaf8466a4e9"
    );
    assert_eq!(
        hex(&zeros(14)),
        "d536d02ae6a0a727a6e907b2fafc71577544d256e4db5f2f22d5bedf73c0cd7c"
    );
    assert_eq!(
        hex(&zeros(15)),
        "aa4c42f09ecb58a7667e1a27b644b2d4bc9fb4213cf83cce6e59350bbe477b9d"
    );
}

#[test]
fn each_table_entry_hashes_the_one_below_twice() {
    assert_eq!(zeros(0), digest(&[0u8; 32]));
    for level in 1u32..=15 {
        let below = zeros(level - 1);
        let mut both = below.clone();
        both.extend_from_slice(&below);
        assert_eq!(zeros(level), digest(&both));
    }
}

#[test]
fn new_tree_shows_the_empty_subtree_below_the_top() {
    let tree = FrontierMerkleTreeWithHistory::new(2, 3);
    assert_eq!(tree.levels(), 2);
    assert_eq!(tree.root_history_size(), 3);
    assert_eq!(tree.leaf_count(), 0);
    assert_eq!(tree.capacity(), 4);
    assert!(!tree.full());
    assert_eq!(tree.get_latest_root(), zeros(1));
    assert!(tree.is_known_root(&zeros(1)));
    assert!(!tree.is_known_root(&zeros(2)));
}

#[test]
fn insert_computes_the_root_of_the_full_tree() {
    let mut tree = FrontierMerkleTreeWithHistory::new(2, 3);
    let expected = [
        "5a4f889b49fefb2c9cda74d98147c550a4ea3c49dc8095f75d8a377c44783797",
        "f1461326b7184e34a37d1856c5ba7bc24ea864921a0dbe3f68b83c31f42a3c02",
        "a2faf0668e590883e0a740fa10498b6f9cb09b8c230150e2c957877404211b14",
        "8f3218bd8293d70ffda496e9a81c46df07feec1dcd147760bf3cbd394cd3cd0c",
    ];
    for k in 0u8..4 {
        tree.insert(&vec![k + 1; 4]);
        assert_eq!(hex(&tree.get_latest_root()), expected[k as usize]);
        assert_eq!(tree.leaf_count(), k as u32 + 1);
    }
    assert_eq!(tree.leaf_count() as u64, tree.capacity());
    assert!(tree.full());
}

#[test]
fn ring_keeps_the_last_roots_only() {
    let mut tree = FrontierMerkleTreeWithHistory::new(2, 3);
    let mut roots = vec![tree.get_latest_root()];
    for k in 0u8..4 {
        tree.insert(&vec![k + 1; 4]);
        roots.push(tree.get_latest_root());
        let recorded = roots.len();
        for (age, root) in roots.iter().enumerate() {
            // the last three roots are known, older ones are not
            assert_eq!(tree.is_known_root(root), age + 3 >= recorded);
        }
    }
    assert!(!tree.is_known_root(&vec![0u8; 32]));
}

#[test]
fn ring_of_one_slot_knows_the_latest_root_only() {
    let mut tree = FrontierMerkleTreeWithHistory::new(3, 1);
    let first = tree.get_latest_root();
    tree.insert(&digest(&[1u8]));
    let second = tree.get_latest_root();
    assert!(!tree.is_known_root(&first));
    assert!(tree.is_known_root(&second));
}

#[test]
fn a_leaf_is_taken_as_it_is() {
    let mut tree = FrontierMerkleTreeWithHistory::new(1, 2);
    let left = vec![7u8; 5];
    tree.insert(&left);
    let mut both = left.clone();
    both.extend_from_slice(&zeros(0));
    assert_eq!(tree.get_latest_root(), digest(&both));
    let right = vec![9u8; 2];
    tree.insert(&right);
    let mut both = left.clone();
    both.extend_from_slice(&right);
    assert_eq!(tree.get_latest_root(), digest(&both));
}

#[test]
fn newest_root_sits_in_the_slot_after_the_last() {
    let mut tree = FrontierMerkleTreeWithHistory::new(4, 3);
    assert_eq!(tree.current_root_index(), 0);
    assert_eq!(tree.root_in_slot(0), Some(zeros(3)));
    assert_eq!(tree.root_in_slot(1), None);
    assert_eq!(tree.root_in_slot(2), None);
    assert_eq!(tree.root_in_slot(3), None);
    for k in 0u32..10 {
        tree.insert(&digest(&k.to_le_bytes()));
        assert_eq!(tree.current_root_index(), (k + 1) % 3);
        assert_eq!(tree.root_in_slot((k + 1) % 3), Some(tree.get_latest_root()));
        assert_eq!(tree.root_in_slot(2).is_some(), k >= 1);
        assert_eq!(tree.root_in_slot(3), None);
    }
}
