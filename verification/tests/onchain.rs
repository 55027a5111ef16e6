use ark_bls12_377::{Bls12_377, Fr};
use ark_groth16::Groth16;
use ark_relations::r1cs::{
    ConstraintSynthesizer, ConstraintSystemRef, LinearCombination, SynthesisError, Variable,
};
use ark_serialize::{CanonicalDeserialize, CanonicalSerialize};
use ark_snark::SNARK;
use rand_chacha::rand_core::SeedableRng;
use sanctum::contract::{arrange_payment, spend, stored_payment, SanctumContract, SanctumError};
use sanctum::frontier_merkle_tree::{zeros, FrontierMerkleTreeWithHistory, FrontierParts};
use sanctum::groth_verifier::SanctumVerifier;
use sanctum::hash::digest;

struct Product {
    inputs: Vec<Fr>,
}

impl ConstraintSynthesizer<Fr> for Product {
    fn generate_constraints(self, cs: ConstraintSystemRef<Fr>) -> Result<(), SynthesisError> {
        for value in self.inputs {
            let input = cs.new_input_variable(|| Ok(value))?;
            let copy = cs.new_witness_variable(|| Ok(value))?;
            cs.enforce_constraint(
                LinearCombination::from(input),
                LinearCombination::from(Variable::One),
                LinearCombination::from(copy),
            )?;
        }
        Ok(())
    }
}

fn ser<T: CanonicalSerialize>(value: &T) -> Vec<u8> {
    let mut out = Vec::new();
    value.serialize_compressed(&mut out).unwrap();
    out
}

#[test]
fn unbound_verifier_reports_it() {
    let mut verifier = SanctumVerifier::new();
    assert!(!verifier.is_bound());
    verifier.init(vec![1u8; 32]);
    assert!(verifier.is_bound());
}

#[test]
fn verifier_needs_the_key_it_is_bound_to_and_a_favourable_verdict() {
    let key = vec![7u8; 100];
    let mut verifier = SanctumVerifier::new();
    verifier.init(digest(&key));
    assert!(verifier.settle(&key, Some(true)));
    assert!(!verifier.settle(&key, Some(false)));
    assert!(!verifier.settle(&key, None));
    assert!(!verifier.settle(&vec![8u8; 100], Some(true)));
    // rebinding replaces the key
    verifier.init(digest(&[8u8; 100]));
    assert!(!verifier.settle(&key, Some(true)));
    assert!(verifier.settle(&vec![8u8; 100], Some(true)));
}

#[test]
fn verifier_checks_a_proof_over_the_inner_curve() {
    let inputs = vec![Fr::from(11u64), Fr::from(22u64), Fr::from(33u64)];
    let mut rng = rand_chacha::ChaCha8Rng::from_seed([0u8; 32]);
    let blank = Product { inputs: vec![Fr::from(0u64); 3] };
    let (pk, vk) = Groth16::<Bls12_377>::circuit_specific_setup(blank, &mut rng).unwrap();
    let proof =
        Groth16::<Bls12_377>::prove(&pk, Product { inputs: inputs.clone() }, &mut rng).unwrap();
    let mut key = Vec::new();
    vk.serialize_uncompressed(&mut key).unwrap();
    let proof = ser(&proof);
    let image: Vec<Vec<u8>> = inputs.iter().map(|f| ser(f)).collect();

    let mut verifier = SanctumVerifier::new();
    verifier.init(digest(&key));
    assert!(verifier.verify(&key, &proof, &image));
    let mut other = image.clone();
    other[2] = ser(&Fr::from(34u64));
    assert!(!verifier.verify(&key, &proof, &other));
    assert!(!verifier.verify(&key, &proof, &image[..2].to_vec()));
    assert!(!verifier.verify(&key, &vec![0u8; 5], &image));
    // a verifier bound to another key turns the same proof down
    let mut elsewhere = SanctumVerifier::new();
    elsewhere.init(digest(b"another key"));
    assert!(!elsewhere.verify(&key, &proof, &image));
}

#[test]
fn spend_looks_at_the_nullifier_then_the_root_then_the_proof() {
    let mut tree = FrontierMerkleTreeWithHistory::new(15, 30);
    let known = zeros(14);
    let unknown = zeros(15);
    let cm = digest(&[1u8]);
    let nf = digest(&[2u8]);
    assert_eq!(
        spend(&mut tree, true, &unknown, &cm, &nf, None),
        Err(SanctumError::DuplicateNullifier)
    );
    assert_eq!(
        spend(&mut tree, false, &unknown, &cm, &nf, None),
        Err(SanctumError::UnknownRoot)
    );
    assert_eq!(
        spend(&mut tree, false, &known, &cm, &nf, None),
        Err(SanctumError::IllegalContractCall)
    );
    assert_eq!(
        spend(&mut tree, false, &known, &cm, &nf, Some(false)),
        Err(SanctumError::IllegalContractCall)
    );
    assert_eq!(
        spend(&mut tree, false, &known, &vec![1u8; 5], &nf, Some(true)),
        Err(SanctumError::IllegalContractCall)
    );
    assert_eq!(tree.leaf_count(), 0);
    let root = spend(&mut tree, false, &known, &cm, &nf, Some(true)).unwrap();
    assert_eq!(tree.leaf_count(), 1);
    assert_eq!(root, tree.get_latest_root());
    assert_eq!(root.len(), 32);
}

#[test]
fn public_inputs_of_a_payment_are_the_halves_of_its_values() {
    let root: Vec<u8> = (0u8..32).collect();
    let cm = vec![7u8; 32];
    let nf = vec![9u8; 32];
    let image = arrange_payment(&root, &cm, &nf);
    assert_eq!(image.len(), 6);
    let mut low: Vec<u8> = (0u8..16).collect();
    low.extend_from_slice(&[0u8; 16]);
    let mut high: Vec<u8> = (16u8..32).collect();
    high.extend_from_slice(&[0u8; 16]);
    assert_eq!(image[0], low);
    assert_eq!(image[1], high);
    assert_eq!(image[2][..16], [9u8; 16]);
    assert_eq!(image[3][16..], [0u8; 16]);
    assert_eq!(image[4][..16], [7u8; 16]);
    assert_eq!(image[5][..16], [7u8; 16]);
}

/// A key for statements with six public inputs and a proof for the given payment.
fn key_and_payment_proof(root: &Vec<u8>, cm: &Vec<u8>, nf: &Vec<u8>) -> (Vec<u8>, Vec<u8>) {
    let inputs: Vec<Fr> = arrange_payment(root, cm, nf)
        .iter()
        .map(|bytes| Fr::deserialize_compressed(bytes.as_slice()).unwrap())
        .collect();
    let mut rng = rand_chacha::ChaCha8Rng::from_seed([0u8; 32]);
    let blank = Product { inputs: vec![Fr::from(0u64); 6] };
    let (pk, vk) = Groth16::<Bls12_377>::circuit_specific_setup(blank, &mut rng).unwrap();
    let proof = Groth16::<Bls12_377>::prove(&pk, Product { inputs }, &mut rng).unwrap();
    let mut key = Vec::new();
    vk.serialize_uncompressed(&mut key).unwrap();
    (key, ser(&proof))
}

#[test]
fn contract_accepts_a_payment_with_its_proof_only() {
    let root = zeros(14);
    let cm = digest(&[1u8; 32]);
    let nf = digest(&[2u8; 32]);
    let (key, proof) = key_and_payment_proof(&root, &cm, &nf);
    let mut contract = SanctumContract::new(digest(&key));
    contract.initialize().unwrap();
    // the proof is for this commitment and this nullifier, and for no other
    let other = digest(&[3u8; 32]);
    assert_eq!(
        contract.payment(&key, &proof, &root, &other, &nf),
        Err(SanctumError::IllegalContractCall)
    );
    assert_eq!(
        contract.payment(&key, &proof, &root, &cm, &other),
        Err(SanctumError::IllegalContractCall)
    );
    assert_eq!(
        contract.payment(&key, &vec![0u8; 7], &root, &cm, &nf),
        Err(SanctumError::IllegalContractCall)
    );
    assert_eq!(contract.coin_count(), 0);
    assert_eq!(contract.nullifier_count(), 0);
    let new_root = contract.payment(&key, &proof, &root, &cm, &nf).unwrap();
    assert_eq!(contract.latest_root(), Some(new_root));
    assert_eq!(contract.coin_count(), 1);
    assert!(contract.exists_nullifier(&nf));
    assert_eq!(
        contract.payment(&key, &proof, &root, &cm, &nf),
        Err(SanctumError::DuplicateNullifier)
    );
}

#[test]
fn contract_takes_proofs_under_its_bound_key_only() {
    let root = zeros(14);
    let cm = digest(&[1u8; 32]);
    let nf = digest(&[2u8; 32]);
    let (key, proof) = key_and_payment_proof(&root, &cm, &nf);
    let mut contract = SanctumContract::new(digest(b"another key"));
    contract.initialize().unwrap();
    assert_eq!(
        contract.payment(&key, &proof, &root, &cm, &nf),
        Err(SanctumError::IllegalContractCall)
    );
    let mut tree = FrontierMerkleTreeWithHistory::new(15, 30);
    assert_eq!(
        stored_payment(&mut tree, &digest(b"another key"), false, &key, &proof, &root, &cm, &nf),
        Err(SanctumError::IllegalContractCall)
    );
    assert!(stored_payment(&mut tree, &digest(&key), false, &key, &proof, &root, &cm, &nf).is_ok());
    assert_eq!(tree.leaf_count(), 1);
}

#[test]
fn tree_survives_a_trip_through_its_parts() {
    let mut tree = FrontierMerkleTreeWithHistory::new(3, 2);
    let mut twin = FrontierMerkleTreeWithHistory::new(3, 2);
    for k in 0u8..5 {
        let parts = tree.to_parts();
        assert!(parts.well_shaped());
        assert_eq!(parts.levels, 3);
        assert_eq!(parts.root_history_size, 2);
        assert_eq!(parts.next_index, k as u32);
        assert_eq!(parts.current_root_index, k as u32 % 2);
        assert_eq!(parts.filled_subtrees.len(), 3);
        assert_eq!(parts.historical_roots.len(), if k == 0 { 1 } else { 2 });
        assert_eq!(parts.historical_roots[parts.current_root_index as usize], tree.get_latest_root());
        tree = FrontierMerkleTreeWithHistory::from_parts(parts).unwrap();
        tree.insert(&digest(&[k]));
        twin.insert(&digest(&[k]));
        assert_eq!(tree.get_latest_root(), twin.get_latest_root());
        assert_eq!(tree.leaf_count(), twin.leaf_count());
    }
}

#[test]
fn damaged_parts_are_told_by_their_shape() {
    let tree = FrontierMerkleTreeWithHistory::new(3, 4);
    let good = tree.to_parts();
    assert!(good.well_shaped());
    let broken = |change: &dyn Fn(&mut FrontierParts)| {
        let mut parts = tree.to_parts();
        change(&mut parts);
        let shaped = parts.well_shaped();
        assert_eq!(FrontierMerkleTreeWithHistory::from_parts(parts).is_some(), shaped);
        shaped
    };
    assert!(!broken(&|p| p.levels = 0));
    assert!(!broken(&|p| p.levels = 32));
    assert!(!broken(&|p| p.levels = 4));
    assert!(!broken(&|p| p.root_history_size = 0));
    assert!(!broken(&|p| p.next_index = 9));
    assert!(!broken(&|p| p.next_index = 1));
    assert!(!broken(&|p| p.current_root_index = 1));
    assert!(!broken(&|p| p.current_root_index = 4));
    assert!(!broken(&|p| p.filled_subtrees.push(vec![0u8; 32])));
    assert!(!broken(&|p| p.historical_roots.push(vec![0u8; 32])));
    assert!(!broken(&|p| p.historical_roots.clear()));
    assert!(!broken(&|p| p.historical_roots[0] = vec![0u8; 31]));
    // a digest that no tree holds is not told by the shape; the tree still works
    assert!(broken(&|p| p.historical_roots[0] = vec![0u8; 32]));
    let mut parts = tree.to_parts();
    parts.filled_subtrees[1] = vec![7u8; 3];
    let mut odd = FrontierMerkleTreeWithHistory::from_parts(parts).unwrap();
    odd.insert(&digest(&[1u8]));
    odd.insert(&digest(&[2u8]));
    assert_eq!(odd.leaf_count(), 2);
    assert_eq!(odd.get_latest_root().len(), 32);
}
