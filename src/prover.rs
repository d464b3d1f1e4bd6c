use vstd::prelude::*;
use crate::field::Fe;
use crate::merkle::{all_bits, first_non_bit, MerkleError, MerkleTreeCircuit};

verus! {

/// Why a proof is not produced for a witness and its public instances.
#[derive(Clone, Copy, Debug, PartialEq, Eq, Structural)]
pub enum ProveError {
    /// The witness itself is malformed.
    Witness(MerkleError),
    /// The witness folds to a root other than the one the instances expose.
    Unsatisfied,
}

/// The public instances are one column holding exactly the value `root`.
pub open spec fn exposes(instances: Seq<Vec<Fe>>, root: Seq<u8>) -> bool {
    &&& instances.len() == 1
    &&& instances[0]@.len() == 1
    &&& instances[0]@[0].bytes@ == root
}

/// Every constraint of the membership circuit holds for this witness and these
/// public instances.
pub open spec fn satisfied(circuit: MerkleTreeCircuit, instances: Seq<Vec<Fe>>) -> bool {
    &&& circuit.merkle_proof.len() == circuit.merkle_path.len()
    &&& all_bits(circuit.merkle_path@)
    &&& exposes(instances, circuit.root())
}

/// The proving pipeline for the membership circuit.
pub struct MyProver;

impl MyProver {
    /// The check made before any commitment is computed: the witness must fold
    /// to a root, and that root must be the single public instance.
    pub fn precheck(circuit: &MerkleTreeCircuit, instances: &Vec<Vec<Fe>>) -> (r: Result<
        (),
        ProveError,
    >)
        requires
            circuit.wf(),
        ensures
            r is Ok <==> satisfied(*circuit, instances@),
            circuit.merkle_proof.len() != circuit.merkle_path.len() ==> r == Err::<(), ProveError>(
                ProveError::Witness(MerkleError::LengthMismatch),
            ),
            circuit.merkle_proof.len() == circuit.merkle_path.len() && !all_bits(
                circuit.merkle_path@,
            ) ==> (r matches Err(ProveError::Witness(MerkleError::NonBooleanPathBit(k)))
                && first_non_bit(circuit.merkle_path@, k as int)),
            circuit.merkle_proof.len() == circuit.merkle_path.len() && all_bits(
                circuit.merkle_path@,
            ) && !exposes(instances@, circuit.root()) ==> r == Err::<(), ProveError>(
                ProveError::Unsatisfied,
            ),
    {
        match circuit.synthesize() {
            Err(e) => Err(ProveError::Witness(e)),
            Ok(root) => {
                if instances.len() != 1 {
                    return Err(ProveError::Unsatisfied);
                }
                if instances[0].len() != 1 {
                    return Err(ProveError::Unsatisfied);
                }
                if instances[0][0].same(&root) {
                    Ok(())
                } else {
                    Err(ProveError::Unsatisfied)
                }
            },
        }
    }
}

/// A witness whose fold is the root exposed as the single public instance
/// passes the precheck.
pub proof fn lemma_valid_witness_satisfies(circuit: MerkleTreeCircuit, instances: Seq<Vec<Fe>>)
    requires
        circuit.wf(),
        circuit.merkle_proof.len() == circuit.merkle_path.len(),
        all_bits(circuit.merkle_path@),
        exposes(instances, circuit.root()),
    ensures
        satisfied(circuit, instances),
{
}

/// A path entry other than 0 or 1 makes the circuit unsatisfiable, whatever
/// the public instances.
pub proof fn lemma_non_bit_unsatisfied(
    circuit: MerkleTreeCircuit,
    instances: Seq<Vec<Fe>>,
    k: int,
)
    requires
        0 <= k < circuit.merkle_path.len(),
        !(circuit.merkle_path@[k].value() == 0 || circuit.merkle_path@[k].value() == 1),
    ensures
        !satisfied(circuit, instances),
{
    assert(!crate::merkle::is_bit(circuit.merkle_path@[k]));
}

/// A tree of depth 0 is its leaf: the empty path folds to the leaf itself, and
/// exposing the leaf as the instance satisfies the circuit.
pub proof fn lemma_depth_zero(circuit: MerkleTreeCircuit, instances: Seq<Vec<Fe>>)
    requires
        circuit.wf(),
        circuit.merkle_proof.len() == 0,
        circuit.merkle_path.len() == 0,
        instances.len() == 1,
        instances[0]@ == seq![circuit.leaf_node],
    ensures
        circuit.root() == circuit.leaf_node.bytes@,
        satisfied(circuit, instances),
{
}

} // verus!
