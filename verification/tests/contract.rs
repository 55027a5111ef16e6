use sanctum::contract::{SanctumContract, SanctumError, MERKLE_TREE_LEVELS, ROOT_HISTORY_SIZE};
use sanctum::frontier_merkle_tree::zeros;
use sanctum::hash::digest;

fn bound_key() -> Vec<u8> {
    digest(b"payment verifying key")
}

fn hex(bytes: &[u8]) -> String {
    let mut out = String::new();
    for b in bytes {
        out.push_str(&format!("{:02x}", b));
    }
    out
}

#[test]
fn test_nullifier() {
    let mut contract = SanctumContract::new(bound_key());
    assert_eq!(contract.initialize(), Ok(()));

    let new_root = contract
        .settle_payment(
            &zeros(MERKLE_TREE_LEVELS - 1),
            &digest(&[0u8; 32]),
            &digest(&[0u8; 32]),
            Some(true),
        )
        .unwrap();

    let new_root = contract
        .settle_payment(&new_root, &digest(&[1u8; 32]), &digest(&[1u8; 32]), Some(true))
        .unwrap();

    let _new_root = contract
        .settle_payment(&new_root, &digest(&[2u8; 32]), &digest(&[2u8; 32]), Some(true))
        .unwrap();

    println!("{}", hex(&_new_root));
}

#[test]
fn initialize_only_once() {
    let mut contract = SanctumContract::new(bound_key());
    assert!(!contract.is_initialized());
    assert_eq!(contract.initialize(), Ok(()));
    assert!(contract.is_initialized());
    assert_eq!(contract.initialize(), Err(SanctumError::IllegalContractCall));
    let cm = digest(&[7u8; 32]);
    let nf = digest(&[8u8; 32]);
    assert!(contract.settle_payment(&zeros(MERKLE_TREE_LEVELS - 1), &cm, &nf, Some(true)).is_ok());
}

#[test]
fn payment_before_initialize_is_refused() {
    let mut contract = SanctumContract::new(bound_key());
    let outcome =
        contract.settle_payment(&zeros(14), &digest(&[0u8; 32]), &digest(&[0u8; 32]), Some(true));
    assert_eq!(outcome, Err(SanctumError::ContractUninitialized));
    assert_eq!(contract.coin_count(), 0);
    assert_eq!(contract.nullifier_count(), 0);
}

#[test]
fn double_spend_is_rejected() {
    let mut contract = SanctumContract::new(bound_key());
    contract.initialize().unwrap();
    let root = zeros(MERKLE_TREE_LEVELS - 1);
    let cm_1 = digest(&[0u8; 32]);
    let nf_1 = digest(&[0u8; 32]);
    assert!(contract.settle_payment(&root, &cm_1, &nf_1, Some(true)).is_ok());
    assert_eq!(
        contract.settle_payment(&root, &cm_1, &nf_1, Some(true)),
        Err(SanctumError::DuplicateNullifier)
    );
    assert_eq!(contract.coin_count(), 1);
    assert_eq!(contract.nullifier_count(), 1);
}

#[test]
fn unknown_root_is_rejected() {
    let mut contract = SanctumContract::new(bound_key());
    contract.initialize().unwrap();
    let outcome = contract.settle_payment(
        &digest(&[255u8; 32]),
        &digest(&[1u8; 32]),
        &digest(&[1u8; 32]),
        Some(true),
    );
    assert_eq!(outcome, Err(SanctumError::UnknownRoot));
    assert_eq!(contract.coin_count(), 0);
    assert_eq!(contract.nullifier_count(), 0);
    assert!(!contract.exists_nullifier(&digest(&[1u8; 32])));
}

#[test]
fn three_insert_chain_has_the_roots_of_the_full_tree() {
    let mut contract = SanctumContract::new(bound_key());
    contract.initialize().unwrap();
    let expected = [
        "aa4c42f09ecb58a7667e1a27b644b2d4bc9fb4213cf83cce6e59350bbe477b9d",
        "4100dd75cc82d359930721863488876c522fffe6da9d6379ab16323ecbf4f83a",
        "5def7bfd0a14a21de184afc4104b73ccd74407468f7c2ceee4e44ca608c3e7ba",
    ];
    let mut root = zeros(MERKLE_TREE_LEVELS - 1);
    for k in 0u8..3 {
        let cm = digest(&[k; 32]);
        let nf = digest(&[k; 32]);
        root = contract.settle_payment(&root, &cm, &nf, Some(true)).unwrap();
        assert_eq!(hex(&root), expected[k as usize]);
        assert_eq!(contract.latest_root(), Some(root.clone()));
        assert!(contract.is_known_root(&root));
    }
    assert_eq!(contract.coin_count(), 3);
    assert_eq!(contract.nullifier_count(), 3);
}

#[test]
fn old_roots_slide_out_of_the_window() {
    let mut contract = SanctumContract::new(bound_key());
    contract.initialize().unwrap();
    let first = zeros(MERKLE_TREE_LEVELS - 1);
    let mut root = first.clone();
    let mut roots = vec![first.clone()];
    for k in 0..ROOT_HISTORY_SIZE {
        let cm = digest(&k.to_le_bytes());
        let nf = digest(&(k + 1000).to_le_bytes());
        root = contract.settle_payment(&root, &cm, &nf, Some(true)).unwrap();
        roots.push(root.clone());
    }
    // 31 roots were recorded; the ring keeps the last 30
    assert!(!contract.is_known_root(&first));
    for kept in &roots[1..] {
        assert!(contract.is_known_root(kept));
    }
    let late = contract.settle_payment(&first, &digest(&[9u8; 3]), &digest(&[9u8; 4]), Some(true));
    assert_eq!(late, Err(SanctumError::UnknownRoot));
}

#[test]
fn error_codes() {
    assert_eq!(SanctumError::ContractUninitialized.code(), 1);
    assert_eq!(SanctumError::IllegalContractCall.code(), 2);
    assert_eq!(SanctumError::DuplicateNullifier.code(), 3);
    assert_eq!(SanctumError::UnknownRoot.code(), 4);
}

#[test]
fn payment_without_a_valid_proof_is_refused() {
    let mut contract = SanctumContract::new(bound_key());
    contract.initialize().unwrap();
    let root = zeros(MERKLE_TREE_LEVELS - 1);
    let cm = digest(&[1u8; 32]);
    let nf = digest(&[2u8; 32]);
    for verdict in [Some(false), None] {
        assert_eq!(
            contract.settle_payment(&root, &cm, &nf, verdict),
            Err(SanctumError::IllegalContractCall)
        );
        assert_eq!(contract.coin_count(), 0);
        assert_eq!(contract.nullifier_count(), 0);
        assert!(!contract.exists_nullifier(&nf));
        assert_eq!(contract.latest_root(), Some(root.clone()));
    }
    // the nullifier and the root are looked at before the proof
    assert!(contract.settle_payment(&root, &cm, &nf, Some(true)).is_ok());
    assert_eq!(
        contract.settle_payment(&root, &cm, &nf, Some(false)),
        Err(SanctumError::DuplicateNullifier)
    );
    assert_eq!(
        contract.settle_payment(&digest(&[9u8]), &cm, &digest(&[3u8]), None),
        Err(SanctumError::UnknownRoot)
    );
}

#[test]
fn payment_values_must_have_32_bytes() {
    let mut contract = SanctumContract::new(bound_key());
    contract.initialize().unwrap();
    let root = zeros(MERKLE_TREE_LEVELS - 1);
    let good = digest(&[1u8; 32]);
    let short = vec![1u8; 31];
    let long = vec![1u8; 33];
    assert_eq!(
        contract.settle_payment(&root, &short, &good, Some(true)),
        Err(SanctumError::IllegalContractCall)
    );
    assert_eq!(
        contract.settle_payment(&root, &good, &long, Some(true)),
        Err(SanctumError::IllegalContractCall)
    );
    assert_eq!(
        contract.settle_payment(&short, &good, &good, Some(true)),
        Err(SanctumError::IllegalContractCall)
    );
    assert_eq!(contract.coin_count(), 0);
    assert_eq!(contract.nullifier_count(), 0);
}

#[test]
fn storage_after_initialize_and_after_a_second_initialize() {
    let mut contract = SanctumContract::new(bound_key());
    assert_eq!(contract.filled_subtree(0), None);
    assert_eq!(contract.current_root_index(), None);
    assert_eq!(contract.latest_root(), None);
    contract.initialize().unwrap();
    for round in 0..2 {
        for level in 0..MERKLE_TREE_LEVELS {
            assert_eq!(contract.filled_subtree(level), Some(zeros(level)));
        }
        assert_eq!(contract.current_root_index(), Some(0));
        assert_eq!(contract.coin_count(), 0);
        assert_eq!(contract.latest_root(), Some(zeros(MERKLE_TREE_LEVELS - 1)));
        assert_eq!(contract.latest_root().unwrap().len(), 32);
        if round == 0 {
            assert_eq!(contract.initialize(), Err(SanctumError::IllegalContractCall));
        }
    }
}

#[test]
fn filled_subtrees_follow_the_last_leaf() {
    let mut contract = SanctumContract::new(bound_key());
    contract.initialize().unwrap();
    let cm_0 = digest(&[0u8]);
    let cm_1 = digest(&[1u8]);
    let cm_2 = digest(&[2u8]);
    let mut root = zeros(MERKLE_TREE_LEVELS - 1);
    root = contract.settle_payment(&root, &cm_0, &digest(&[10u8]), Some(true)).unwrap();
    assert_eq!(contract.filled_subtree(0), Some(cm_0.clone()));
    let mut pair = cm_0.clone();
    pair.extend_from_slice(&zeros(0));
    assert_eq!(contract.filled_subtree(1), Some(digest(&pair)));
    root = contract.settle_payment(&root, &cm_1, &digest(&[11u8]), Some(true)).unwrap();
    // the second leaf is a right child: the entry of the bottom level stays
    assert_eq!(contract.filled_subtree(0), Some(cm_0.clone()));
    let mut pair = cm_0.clone();
    pair.extend_from_slice(&cm_1);
    assert_eq!(contract.filled_subtree(1), Some(digest(&pair)));
    contract.settle_payment(&root, &cm_2, &digest(&[12u8]), Some(true)).unwrap();
    assert_eq!(contract.filled_subtree(0), Some(cm_2));
    assert_eq!(contract.filled_subtree(1), Some(digest(&pair)));
    assert_eq!(contract.current_root_index(), Some(3));
}
