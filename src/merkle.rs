use vstd::prelude::*;
use crate::field::{poseidon_compress, poseidon_pair, Fe};

verus! {

/// Whether a path entry is one of the two values a selector may take.
pub open spec fn is_bit(f: Fe) -> bool {
    f.value() == 0 || f.value() == 1
}

pub open spec fn all_bits(path: Seq<Fe>) -> bool {
    forall|i: int| 0 <= i < path.len() ==> is_bit(#[trigger] path[i])
}

pub open spec fn all_wf(v: Seq<Fe>) -> bool {
    forall|i: int| 0 <= i < v.len() ==> (#[trigger] v[i]).wf()
}

/// `k` is the first level whose path entry is not a bit.
pub open spec fn first_non_bit(path: Seq<Fe>, k: int) -> bool {
    0 <= k < path.len() && !is_bit(path[k]) && forall|j: int| 0 <= j < k ==> is_bit(#[trigger] path[j])
}

/// One level of the fold: with bit 0 the running value is the left input and
/// the sibling the right one; with bit 1 the order is reversed.
pub open spec fn step(running: Seq<u8>, sibling: Seq<u8>, bit: bool) -> Seq<u8> {
    if bit {
        poseidon_pair(sibling, running)
    } else {
        poseidon_pair(running, sibling)
    }
}

/// The root reached from `leaf` by folding in each sibling in order, the
/// matching path entry choosing the side at each level.
pub open spec fn fold(leaf: Seq<u8>, siblings: Seq<Fe>, path: Seq<Fe>) -> Seq<u8>
    decreases siblings.len(),
{
    if siblings.len() == 0 {
        leaf
    } else {
        let n = siblings.len() - 1;
        step(fold(leaf, siblings.take(n), path.take(n)), siblings[n].bytes@, path[n].value() == 1)
    }
}

/// Why a witness cannot be folded into a root.
#[derive(Clone, Copy, Debug, PartialEq, Eq, Structural)]
pub enum MerkleError {
    /// The siblings and the path differ in length.
    LengthMismatch,
    /// The path entry at this level is neither 0 nor 1.
    NonBooleanPathBit(usize),
}

/// The selector gate: orders `(a, b)` by the selector `s`, which must be 0 or 1.
pub fn select(a: &Fe, b: &Fe, s: &Fe) -> (r: Option<(Fe, Fe)>)
    ensures
        s.value() == 0 ==> r == Some((*a, *b)),
        s.value() == 1 ==> r == Some((*b, *a)),
        !is_bit(*s) ==> r is None,
{
    match s.as_bit() {
        Some(false) => Some((*a, *b)),
        Some(true) => Some((*b, *a)),
        None => None,
    }
}

/// One level of the membership fold: the selector gate followed by the
/// compression of the ordered pair.
pub fn fold_level(running: &Fe, sibling: &Fe, bit: &Fe) -> (r: Option<Fe>)
    requires
        running.wf(),
        sibling.wf(),
    ensures
        r is Some <==> is_bit(*bit),
        r is Some ==> r->Some_0.wf() && r->Some_0.bytes@ == step(
            running.bytes@,
            sibling.bytes@,
            bit.value() == 1,
        ),
{
    match select(running, sibling, bit) {
        Some((left, right)) => Some(poseidon_compress(&left, &right)),
        None => None,
    }
}

/// The witness of a membership proof: a secret leaf, the siblings along its
/// path from the bottom level up, the path entries choosing the side at each
/// level, and the root claimed for the tree.
pub struct MerkleTreeCircuit {
    pub merkle_proof: Vec<Fe>,
    pub merkle_path: Vec<Fe>,
    pub leaf_node: Fe,
    pub hash_root: Fe,
}

impl MerkleTreeCircuit {
    pub open spec fn wf(&self) -> bool {
        &&& self.leaf_node.wf()
        &&& self.hash_root.wf()
        &&& all_wf(self.merkle_proof@)
        &&& all_wf(self.merkle_path@)
    }

    /// Builds a witness, refusing siblings and a path of different lengths.
    pub fn new(leaf_node: Fe, merkle_proof: Vec<Fe>, merkle_path: Vec<Fe>, hash_root: Fe) -> (r:
        Result<MerkleTreeCircuit, MerkleError>)
        ensures
            r is Err <==> merkle_proof.len() != merkle_path.len(),
            r is Err ==> r == Err::<MerkleTreeCircuit, MerkleError>(MerkleError::LengthMismatch),
            r is Ok ==> (r->Ok_0.leaf_node == leaf_node && r->Ok_0.merkle_proof@ == merkle_proof@
                && r->Ok_0.merkle_path@ == merkle_path@ && r->Ok_0.hash_root == hash_root),
    {
        if merkle_proof.len() != merkle_path.len() {
            Err(MerkleError::LengthMismatch)
        } else {
            Ok(MerkleTreeCircuit { merkle_proof, merkle_path, leaf_node, hash_root })
        }
    }

    /// The root this witness folds to.
    pub open spec fn root(&self) -> Seq<u8> {
        fold(self.leaf_node.bytes@, self.merkle_proof@, self.merkle_path@)
    }

    /// Folds the witness level by level into the root it commits to; the
    /// witness is rejected where the lengths differ or a path entry is not a bit.
    pub fn synthesize(&self) -> (r: Result<Fe, MerkleError>)
        requires
            self.wf(),
        ensures
            self.merkle_proof.len() != self.merkle_path.len() ==> r == Err::<Fe, MerkleError>(
                MerkleError::LengthMismatch,
            ),
            self.merkle_proof.len() == self.merkle_path.len() ==> (r is Ok <==> all_bits(
                self.merkle_path@,
            )),
            r is Ok ==> r->Ok_0.wf() && r->Ok_0.bytes@ == self.root(),
            self.merkle_proof.len() == self.merkle_path.len() && !all_bits(self.merkle_path@) ==> (
            r matches Err(MerkleError::NonBooleanPathBit(k)) && first_non_bit(
                self.merkle_path@,
                k as int,
            )),
    {
        let n = self.merkle_proof.len();
        if n != self.merkle_path.len() {
            return Err(MerkleError::LengthMismatch);
        }
        let mut running = self.leaf_node;
        let mut i: usize = 0;
        assert(self.merkle_proof@.take(0).len() == 0);
        while i < n
            invariant
                self.wf(),
                n == self.merkle_proof.len(),
                n == self.merkle_path.len(),
                0 <= i <= n,
                running.wf(),
                running.bytes@ == fold(
                    self.leaf_node.bytes@,
                    self.merkle_proof@.take(i as int),
                    self.merkle_path@.take(i as int),
                ),
                forall|j: int| 0 <= j < i ==> is_bit(#[trigger] self.merkle_path@[j]),
            decreases n - i,
        {
            let sibling = &self.merkle_proof[i];
            let bit = &self.merkle_path[i];
            match fold_level(&running, sibling, bit) {
                Some(next) => {
                    let ghost s1 = self.merkle_proof@.take(i + 1);
                    let ghost p1 = self.merkle_path@.take(i + 1);
                    assert(s1.take(i as int) =~= self.merkle_proof@.take(i as int));
                    assert(p1.take(i as int) =~= self.merkle_path@.take(i as int));
                    running = next;
                },
                None => {
                    return Err(MerkleError::NonBooleanPathBit(i));
                },
            }
            i = i + 1;
        }
        assert(self.merkle_proof@.take(n as int) =~= self.merkle_proof@);
        assert(self.merkle_path@.take(n as int) =~= self.merkle_path@);
        Ok(running)
    }
}

} // verus!
