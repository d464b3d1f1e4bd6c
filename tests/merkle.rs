use ff::{Field, PrimeField};
use halo2_poseidon::{ConstantLength, P128Pow5T3};
use halo2_semaphore::field::Fe;
use halo2_semaphore::merkle::{fold_level, select, MerkleError, MerkleTreeCircuit};
use halo2_semaphore::prover::{MyProver, ProveError};
use pasta_curves::Fp;

fn compress(l: Fp, r: Fp) -> Fp {
    halo2_poseidon::Hash::<Fp, P128Pow5T3, ConstantLength<2>, 3, 2>::init().hash([l, r])
}

fn fe(x: Fp) -> Fe {
    Fe::from_bytes(x.to_repr()).unwrap()
}

fn bits(v: &[u64]) -> Vec<Fe> {
    v.iter().map(|b| Fe::from_u64(*b)).collect()
}

fn circuit(leaf: u64, siblings: &[u64], path: &[u64], root: Fe) -> MerkleTreeCircuit {
    MerkleTreeCircuit {
        merkle_proof: siblings.iter().map(|v| Fe::from_u64(*v)).collect(),
        merkle_path: bits(path),
        leaf_node: Fe::from_u64(leaf),
        hash_root: root,
    }
}

/// Root of leaf 123 chained with siblings 0..4, the running value always on the left.
fn chained_root() -> Fp {
    let mut leaf = Fp::from(123);
    for value in 0..5 {
        leaf = compress(leaf, Fp::from(value));
    }
    leaf
}

#[test]
fn test_circuit() {
    let root = chained_root();
    let c = circuit(123, &[0, 1, 2, 3, 4], &[0, 0, 0, 0, 0], fe(root));
    let folded = c.synthesize().unwrap();
    assert_eq!(folded.to_bytes(), root.to_repr());
    assert_eq!(MyProver::precheck(&c, &vec![vec![c.hash_root]]), Ok(()));
}

#[test]
fn reversed_path_gives_other_root() {
    let root = chained_root();
    let c = circuit(123, &[0, 1, 2, 3, 4], &[1, 1, 1, 1, 1], fe(root));
    let mut expected = Fp::from(123);
    for value in 0..5 {
        expected = compress(Fp::from(value), expected);
    }
    let folded = c.synthesize().unwrap();
    assert_eq!(folded.to_bytes(), expected.to_repr());
    assert_ne!(folded.to_bytes(), root.to_repr());
    assert_eq!(MyProver::precheck(&c, &vec![vec![fe(root)]]), Err(ProveError::Unsatisfied));
}

#[test]
fn flipped_sibling_bit_fails_precheck() {
    let root = chained_root();
    for level in 0..5 {
        for bit in [0u32, 7, 100, 200] {
            let mut c = circuit(123, &[0, 1, 2, 3, 4], &[0, 0, 0, 0, 0], fe(root));
            let mut bytes = c.merkle_proof[level].to_bytes();
            bytes[(bit / 8) as usize] ^= 1 << (bit % 8);
            c.merkle_proof[level] = Fe::from_bytes(bytes).unwrap();
            assert_eq!(
                MyProver::precheck(&c, &vec![vec![fe(root)]]),
                Err(ProveError::Unsatisfied)
            );
        }
    }
}

#[test]
fn non_boolean_path_bit_rejected() {
    let root = chained_root();
    let c = circuit(123, &[0, 1, 2, 3, 4], &[0, 0, 1, 2, 0], fe(root));
    assert_eq!(c.synthesize().unwrap_err(), MerkleError::NonBooleanPathBit(3));
    assert_eq!(
        MyProver::precheck(&c, &vec![vec![fe(root)]]),
        Err(ProveError::Witness(MerkleError::NonBooleanPathBit(3)))
    );
    let minus_one = fe(-Fp::ONE);
    let c = circuit(123, &[0, 1], &[0, 0], fe(root));
    let c = MerkleTreeCircuit { merkle_path: vec![minus_one, Fe::from_u64(7)], ..c };
    assert_eq!(c.synthesize().unwrap_err(), MerkleError::NonBooleanPathBit(0));
}

#[test]
fn depth_zero_root_is_leaf() {
    let leaf = Fe::from_u64(123);
    let c = circuit(123, &[], &[], leaf);
    assert_eq!(c.synthesize().unwrap().to_bytes(), Fp::from(123).to_repr());
    assert_eq!(MyProver::precheck(&c, &vec![vec![leaf]]), Ok(()));
    assert_eq!(
        MyProver::precheck(&c, &vec![vec![Fe::from_u64(124)]]),
        Err(ProveError::Unsatisfied)
    );
}

#[test]
fn length_mismatch_rejected() {
    let c = circuit(123, &[0, 1, 2], &[0, 0], Fe::from_u64(0));
    assert_eq!(c.synthesize().unwrap_err(), MerkleError::LengthMismatch);
    assert_eq!(
        MyProver::precheck(&c, &vec![vec![Fe::from_u64(0)]]),
        Err(ProveError::Witness(MerkleError::LengthMismatch))
    );
}

#[test]
fn instance_shape_must_be_single_root() {
    let root = fe(chained_root());
    let c = circuit(123, &[0, 1, 2, 3, 4], &[0, 0, 0, 0, 0], root);
    assert_eq!(MyProver::precheck(&c, &vec![]), Err(ProveError::Unsatisfied));
    assert_eq!(MyProver::precheck(&c, &vec![vec![]]), Err(ProveError::Unsatisfied));
    assert_eq!(MyProver::precheck(&c, &vec![vec![root, root]]), Err(ProveError::Unsatisfied));
    assert_eq!(MyProver::precheck(&c, &vec![vec![root], vec![root]]), Err(ProveError::Unsatisfied));
    assert_eq!(MyProver::precheck(&c, &vec![vec![root]]), Ok(()));
}

#[test]
fn fold_level_orders_by_bit() {
    let a = Fe::from_u64(6);
    let b = Fe::from_u64(42);
    let left = fold_level(&a, &b, &Fe::from_u64(0)).unwrap();
    let right = fold_level(&a, &b, &Fe::from_u64(1)).unwrap();
    assert_eq!(left.to_bytes(), compress(Fp::from(6), Fp::from(42)).to_repr());
    assert_eq!(right.to_bytes(), compress(Fp::from(42), Fp::from(6)).to_repr());
    assert!(fold_level(&a, &b, &Fe::from_u64(2)).is_none());
}

#[test]
fn select_swaps_on_one() {
    let a = Fe::from_u64(1);
    let b = Fe::from_u64(2);
    let (l, r) = select(&a, &b, &Fe::from_u64(0)).unwrap();
    assert_eq!((l.to_bytes(), r.to_bytes()), (a.to_bytes(), b.to_bytes()));
    let (l, r) = select(&a, &b, &Fe::from_u64(1)).unwrap();
    assert_eq!((l.to_bytes(), r.to_bytes()), (b.to_bytes(), a.to_bytes()));
    assert!(select(&a, &b, &Fe::from_u64(3)).is_none());
}

#[test]
fn new_refuses_length_mismatch() {
    let leaf = Fe::from_u64(123);
    let err = MerkleTreeCircuit::new(leaf, bits(&[0, 1]), bits(&[0]), leaf).err();
    assert_eq!(err, Some(MerkleError::LengthMismatch));
    let c = MerkleTreeCircuit::new(leaf, bits(&[0, 1]), bits(&[0, 1]), leaf).ok().unwrap();
    assert_eq!(c.merkle_proof.len(), 2);
    assert_eq!(c.leaf_node.to_bytes(), leaf.to_bytes());
}
