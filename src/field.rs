use vstd::prelude::*;
use ff::PrimeField;
use halo2_poseidon::{ConstantLength, P128Pow5T3};
use pasta_curves::Fp;

verus! {

/// The order of the base field of the Pallas curve, the field every value lives in.
pub open spec fn modulus() -> nat {
    0x40000000000000000000000000000000224698fc094cf91b992d30ed00000001nat
}

/// The number that a little-endian byte string denotes.
pub open spec fn le_value(s: Seq<u8>) -> nat
    decreases s.len(),
{
    if s.len() == 0 {
        0
    } else {
        s[0] as nat + 256 * le_value(s.drop_first())
    }
}

/// A field element, held as its canonical encoding: 32 bytes, little-endian,
/// denoting a number below the modulus. Each residue has exactly one encoding,
/// so two well-formed elements are equal exactly when their bytes are.
#[derive(Clone, Copy, Debug)]
pub struct Fe {
    pub bytes: [u8; 32],
}

impl Fe {
    pub open spec fn value(&self) -> nat {
        le_value(self.bytes@)
    }

    pub open spec fn wf(&self) -> bool {
        self.value() < modulus()
    }

    /// The element `v`.
    pub fn from_u64(v: u64) -> (r: Fe)
        ensures
            r.wf(),
            r.value() == v as nat,
    {
        fe_of_u64(v)
    }

    /// The element that `bytes` encodes, where that encoding is canonical.
    pub fn from_bytes(bytes: [u8; 32]) -> (r: Option<Fe>)
        ensures
            r is Some <==> le_value(bytes@) < modulus(),
            r is Some ==> r->Some_0.bytes@ == bytes@,
    {
        if is_canonical(bytes) {
            Some(Fe { bytes })
        } else {
            None
        }
    }

    /// The element read as a path bit: `Some(false)` for 0, `Some(true)` for 1,
    /// `None` for any other value.
    pub fn as_bit(&self) -> (r: Option<bool>)
        ensures
            r == Some(false) <==> self.value() == 0,
            r == Some(true) <==> self.value() == 1,
            r is None <==> (self.value() != 0 && self.value() != 1),
    {
        proof {
            lemma_le_value_zero(self.bytes@);
            lemma_le_value_one(self.bytes@);
        }
        let mut i: usize = 1;
        while i < 32
            invariant
                1 <= i <= 32,
                forall|j: int| 1 <= j < i ==> self.bytes@[j] == 0,
            decreases 32 - i,
        {
            if self.bytes[i] != 0 {
                proof {
                    lemma_le_value_zero(self.bytes@);
                    lemma_le_value_one(self.bytes@);
                }
                assert(self.bytes@[i as int] != 0);
                return None;
            }
            i = i + 1;
        }
        if self.bytes[0] == 0 {
            Some(false)
        } else if self.bytes[0] == 1 {
            Some(true)
        } else {
            None
        }
    }

    /// The canonical encoding of this element.
    pub fn to_bytes(&self) -> (r: [u8; 32])
        ensures
            r@ == self.bytes@,
    {
        self.bytes
    }

    /// Whether two elements have the same encoding, which for well-formed
    /// elements is equality in the field.
    pub fn same(&self, other: &Fe) -> (r: bool)
        ensures
            r == (self.bytes@ == other.bytes@),
    {
        let mut i: usize = 0;
        while i < 32
            invariant
                0 <= i <= 32,
                forall|j: int| 0 <= j < i ==> self.bytes@[j] == other.bytes@[j],
            decreases 32 - i,
        {
            if self.bytes[i] != other.bytes[i] {
                return false;
            }
            i = i + 1;
        }
        assert(self.bytes@ =~= other.bytes@);
        true
    }
}

/// A little-endian string denotes 0 exactly when all its bytes are 0.
pub proof fn lemma_le_value_zero(s: Seq<u8>)
    ensures
        le_value(s) == 0 <==> (forall|i: int| 0 <= i < s.len() ==> s[i] == 0),
    decreases s.len(),
{
    if s.len() > 0 {
        let t = s.drop_first();
        lemma_le_value_zero(t);
        assert forall|i: int| 1 <= i < s.len() implies s[i] == t[i - 1] by {}
        if (forall|i: int| 0 <= i < s.len() ==> s[i] == 0) {
            assert forall|i: int| 0 <= i < t.len() implies t[i] == 0 by {
                assert(t[i] == s[i + 1]);
            }
        }
    }
}

/// A little-endian string denotes 1 exactly when its first byte is 1 and all
/// later bytes are 0.
pub proof fn lemma_le_value_one(s: Seq<u8>)
    ensures
        le_value(s) == 1 <==> (s.len() > 0 && s[0] == 1 && (forall|i: int|
            1 <= i < s.len() ==> s[i] == 0)),
{
    if s.len() > 0 {
        let t = s.drop_first();
        lemma_le_value_zero(t);
        assert forall|i: int| 1 <= i < s.len() implies s[i] == t[i - 1] by {}
        if s[0] == 1 && (forall|i: int| 1 <= i < s.len() ==> s[i] == 0) {
            assert forall|i: int| 0 <= i < t.len() implies t[i] == 0 by {
                assert(t[i] == s[i + 1]);
            }
        }
    }
}

/// Names the result of the two-to-one Poseidon compression
/// (P128Pow5T3: width 3, rate 2, 8 full and 56 partial rounds, constant
/// input length 2) on the encodings of its left and right inputs.
pub uninterp spec fn poseidon_pair(left: Seq<u8>, right: Seq<u8>) -> Seq<u8>;

/// Relies on pasta_curves' `From<u64>` for `Fp`, which gives the element `v`,
/// and on `PrimeField::to_repr`, which writes an element as its canonical
/// little-endian bytes.
#[verifier::external_body]
fn fe_of_u64(v: u64) -> (r: Fe)
    ensures
        le_value(r.bytes@) == v as nat,
{
    Fe { bytes: Fp::from(v).to_repr() }
}

/// Relies on `PrimeField::from_repr` of pasta_curves' `Fp`: it accepts an
/// encoding exactly when its little-endian value is below the modulus.
#[verifier::external_body]
fn is_canonical(bytes: [u8; 32]) -> (r: bool)
    ensures
        r == (le_value(bytes@) < modulus()),
{
    bool::from(Fp::from_repr(bytes).is_some())
}

/// Relies on halo2_poseidon's `Hash::<Fp, P128Pow5T3, ConstantLength<2>, 3, 2>::hash`
/// on `[left, right]`, read from and written back to canonical encodings
/// (`from_repr`, `to_repr`).
#[verifier::external_body]
pub(crate) fn poseidon_compress(left: &Fe, right: &Fe) -> (r: Fe)
    requires
        left.wf(),
        right.wf(),
    ensures
        r.bytes@ == poseidon_pair(left.bytes@, right.bytes@),
        r.wf(),
{
    let l = Fp::from_repr(left.bytes).unwrap();
    let r = Fp::from_repr(right.bytes).unwrap();
    let h = halo2_poseidon::Hash::<Fp, P128Pow5T3, ConstantLength<2>, 3, 2>::init().hash([l, r]);
    Fe { bytes: h.to_repr() }
}

} // verus!
