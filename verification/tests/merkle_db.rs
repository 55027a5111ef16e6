use sanctum::contract::SanctumContract;
use sanctum::frontier_merkle_tree::{zeros, FrontierMerkleTreeWithHistory};
use sanctum::groth16::Rejection;
use sanctum::hash::digest;
use sanctum::merkle_db::{verify_opening, MerkleDb};
use sanctum::merkle_update_circuit::satisfied;
use sanctum::protocol::sha2_vector_commitment_opening_proof_from_bs58;
use sanctum::sequencer_service::CoinTree;

fn hex(bytes: &[u8]) -> String {
    let mut out = String::new();
    for b in bytes {
        out.push_str(&format!("{:02x}", b));
    }
    out
}

#[test]
fn empty_db_has_the_empty_root() {
    let db = MerkleDb::new(3);
    assert_eq!(db.levels(), 3);
    assert_eq!(db.leaf_count(), 8);
    assert_eq!(db.commitment(), zeros(3));
    for k in 0..8 {
        assert_eq!(db.get_record(k), zeros(0));
    }
}

#[test]
fn update_recomputes_the_root() {
    let mut db = MerkleDb::new(3);
    for k in 0u8..5 {
        db.update(k as usize, &digest(&[k]));
    }
    assert_eq!(
        hex(&db.commitment()),
        "bc4aa90da8b40c374943c54382593a8b884e986f01ae0dce195b76c071fb7750"
    );
    assert_eq!(db.get_record(4), digest(&[4u8]));
    assert_eq!(db.get_record(5), zeros(0));
}

#[test]
fn frontier_root_equals_full_tree_root() {
    let mut db = MerkleDb::new(4);
    let mut tree = FrontierMerkleTreeWithHistory::new(4, 5);
    for k in 0u8..16 {
        let leaf = digest(&[k, k, k]);
        db.update(k as usize, &leaf);
        tree.insert(&leaf);
        assert_eq!(tree.get_latest_root(), db.commitment());
    }
}

#[test]
fn every_opening_verifies() {
    let mut db = MerkleDb::new(3);
    for k in 0u8..6 {
        db.update(k as usize, &digest(&[k]));
    }
    for k in 0..8 {
        let opening = db.opening_at(k);
        assert_eq!(opening.path_leaf_index, k);
        assert_eq!(opening.path_auth_path.len(), 2);
        assert_eq!(opening.record, db.get_record(k));
        assert_eq!(opening.root, db.commitment());
        assert!(verify_opening(&opening));
    }
}

#[test]
fn opening_lists_the_siblings_from_the_top_down() {
    let mut db = MerkleDb::new(2);
    let leaves: Vec<Vec<u8>> = (0u8..4).map(|k| vec![k + 1; 4]).collect();
    for (k, leaf) in leaves.iter().enumerate() {
        db.update(k, leaf);
    }
    let opening = db.opening_at(2);
    assert_eq!(opening.path_leaf_sibling_hash, leaves[3]);
    let mut left = leaves[0].clone();
    left.extend_from_slice(&leaves[1]);
    assert_eq!(opening.path_auth_path, vec![digest(&left)]);
}

#[test]
fn tampered_opening_fails() {
    let mut db = MerkleDb::new(3);
    db.update(0, &digest(&[1u8]));
    let good = db.opening_at(0);
    let mut wrong_leaf = good.clone();
    wrong_leaf.record = digest(&[2u8]);
    assert!(!verify_opening(&wrong_leaf));
    let mut wrong_index = good.clone();
    wrong_index.path_leaf_index = 1;
    assert!(!verify_opening(&wrong_index));
    let mut wrong_path = good.clone();
    wrong_path.path_auth_path[0] = zeros(0);
    assert!(!verify_opening(&wrong_path));
    let mut wrong_root = good.clone();
    wrong_root.root = zeros(3);
    assert!(!verify_opening(&wrong_root));
}

#[test]
fn update_keeps_the_path_of_the_leaf() {
    let mut db = MerkleDb::new(3);
    db.update(0, &digest(&[1u8]));
    db.update(1, &digest(&[2u8]));
    let (before, after) = db.update_with_openings(2, &digest(&[3u8]));
    assert_eq!(before.record, zeros(0));
    assert_eq!(after.record, digest(&[3u8]));
    assert_eq!(before.path_leaf_index, 2);
    assert_eq!(after.path_leaf_index, 2);
    assert_eq!(before.path_leaf_sibling_hash, after.path_leaf_sibling_hash);
    assert_eq!(before.path_auth_path, after.path_auth_path);
    assert_ne!(before.root, after.root);
    assert_eq!(after.root, db.commitment());
    assert!(verify_opening(&before));
    assert!(verify_opening(&after));
}

#[test]
fn coin_tree_chains_its_roots() {
    let mut coins = CoinTree::new(3);
    let mut last_root = coins.root();
    assert_eq!(last_root, zeros(3));
    for k in 0u8..8 {
        let (before, after) = coins.add_coin(&digest(&[k])).unwrap();
        assert_eq!(before.path_leaf_index, k as usize);
        assert_eq!(before.root, last_root);
        assert_eq!(before.record, zeros(0));
        assert_eq!(before.path_auth_path, after.path_auth_path);
        assert_eq!(after.root, coins.root());
        last_root = after.root;
        assert_eq!(coins.coin_count(), k as usize + 1);
    }
    let root = coins.root();
    assert_eq!(coins.add_coin(&digest(&[9u8])).unwrap_err(), Rejection::TreeFull);
    assert_eq!(coins.coin_count(), 8);
    assert_eq!(coins.root(), root);
}

#[test]
fn merkle_request_answers_the_contract_root() {
    // three payments; after each, the opening served for the new leaf shows the root the
    // contract has just recorded
    let mut contract = SanctumContract::new(digest(b"key"));
    contract.initialize().unwrap();
    let mut coins = CoinTree::new(15);
    let mut root = zeros(14);
    for k in 0u8..3 {
        let cm = digest(&[k; 32]);
        let nf = digest(&[k; 32]);
        root = contract.settle_payment(&root, &cm, &nf, Some(true)).unwrap();
        coins.add_coin(&cm).unwrap();
        let served = coins.serve_merkle_proof_request(k as usize).unwrap();
        assert_eq!(served.path_leaf_index, k as usize);
        assert_eq!(served.path_auth_path.len(), 14);
        let opening = sha2_vector_commitment_opening_proof_from_bs58(&served).unwrap();
        assert_eq!(opening.root, root);
        assert_eq!(opening.record, cm);
        assert!(verify_opening(&opening));
        assert_eq!(contract.latest_root(), Some(opening.root));
    }
}

#[test]
fn merkle_request_out_of_range_is_refused() {
    let coins = CoinTree::new(2);
    assert!(coins.serve_merkle_proof_request(3).is_ok());
    assert_eq!(coins.serve_merkle_proof_request(4).unwrap_err(), Rejection::LeafOutOfRange);
}

#[test]
fn tree_update_witness_satisfies_the_update_relation() {
    let mut coins = CoinTree::new(3);
    let r0 = coins.root();
    let cm_1 = digest(&[1u8]);
    let (old_1, new_1) = coins.add_coin(&cm_1).unwrap();
    let r1 = coins.root();
    assert!(satisfied(0, &cm_1, &r0, &r1, &old_1, &new_1));
    let cm_2 = digest(&[2u8]);
    let (old_2, new_2) = coins.add_coin(&cm_2).unwrap();
    let r2 = coins.root();
    assert!(satisfied(1, &cm_2, &r1, &r2, &old_2, &new_2));
    // a second update that still claims to start from the first root
    assert!(!satisfied(1, &cm_2, &r0, &r2, &old_2, &new_2));
    // another leaf, another index, another new root
    assert!(!satisfied(1, &cm_1, &r1, &r2, &old_2, &new_2));
    assert!(!satisfied(0, &cm_2, &r1, &r2, &old_2, &new_2));
    assert!(!satisfied(1, &cm_2, &r1, &r1, &old_2, &new_2));
    // openings of different updates do not share their path
    assert!(!satisfied(1, &cm_2, &r0, &r2, &old_1, &new_2));
    // a witness with a forged sibling
    let mut forged = new_2.clone();
    forged.path_auth_path[1] = zeros(0);
    assert!(!satisfied(1, &cm_2, &r1, &r2, &old_2, &forged));
}
