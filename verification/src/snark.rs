//! The SNARK driver.
//!
//! The pairing-based prover is an outside collaborator; this module fixes
//! what the library asks of it. Verified code prepares everything the
//! prover consumes: the allocation order of [`synthesis_allocations`]
//! (constant one, then the public inputs in declared order, then the
//! remaining variables in index order — the order that must agree between
//! setup and proving) and the canonical public-input vector of
//! [`public_inputs_for_verification`]. Checking a proof is a call into
//! the prover; the result is its outcome for exactly those arguments,
//! named by [`groth16_outcome`].

use vstd::prelude::*;
use ark_bls12_381::Bls12_381;
use ark_groth16::Groth16;
use ark_relations::r1cs::SynthesisError;
use ark_serialize::{CanonicalDeserialize, CanonicalSerialize};
use crate::field::{Fe, fe_value};
use crate::r1cs::{R1CSSystem, SpecR1cs, name_pos};
use crate::witness::values_view;

verus! {

/// A Groth16 proving key over BLS12-381.
#[verifier::external_body]
pub struct ProvingKey(pub ark_groth16::ProvingKey<Bls12_381>);

/// A Groth16 verifying key over BLS12-381.
#[verifier::external_body]
pub struct VerifyingKey(pub ark_groth16::VerifyingKey<Bls12_381>);

/// A Groth16 proof over BLS12-381.
#[verifier::external_body]
pub struct Proof(pub ark_groth16::Proof<Bls12_381>);

/// A verifying key processed for repeated verification.
#[verifier::external_body]
pub struct PreparedKey(ark_groth16::PreparedVerifyingKey<Bls12_381>);

/// What processing a verifying key yields: `prepare_verifying_key`
/// computes pairings of the key's group elements and nothing else, so
/// the result is a function of the key alone.
pub uninterp spec fn prepared_of(vk: VerifyingKey) -> PreparedKey;

/// The pairing check's outcome for a processed key, a proof and the
/// public-input values: `Groth16::verify_proof` draws no randomness and
/// reads nothing else, so the outcome is a function of these alone.
pub uninterp spec fn groth16_outcome(pvk: PreparedKey, proof: Proof, inputs: Seq<int>) -> Result<
    bool,
    SnarkError,
>;

/// The canonical compressed encoding of a proof: a function of the
/// proof alone.
pub uninterp spec fn proof_bytes(p: Proof) -> Seq<u8>;

/// What decoding a byte string yields: a function of the bytes alone.
pub uninterp spec fn decoded_proof(bytes: Seq<u8>) -> Option<Proof>;

/// A structural failure reported by the SNARK layer.
#[derive(Debug, PartialEq, Eq)]
pub enum SnarkError {
    MissingCS,
    AssignmentMissing,
    DivisionByZero,
    Unsatisfiable,
    PolynomialDegreeTooLarge,
    UnexpectedIdentity,
    MalformedVerifyingKey,
    UnconstrainedVariable,
}

/// Relies on `ark_groth16::prepare_verifying_key`: deterministic in the
/// key, no panic path.
#[verifier::external_body]
fn process_vk(vk: &VerifyingKey) -> (r: PreparedKey)
    ensures
        r == prepared_of(*vk),
{
    PreparedKey(ark_groth16::prepare_verifying_key(&vk.0))
}

/// Relies on `Groth16::verify_proof`: whether the pairing check accepts
/// `proof` against the key and the public inputs, or a structural error.
/// The check is deterministic, so the result is the outcome function of
/// the arguments; what that outcome is rests on the cryptography alone.
#[verifier::external_body]
fn groth16_verify(pvk: &PreparedKey, proof: &Proof, inputs: &Vec<Fe>) -> (r: Result<
    bool,
    SnarkError,
>)
    ensures
        r == groth16_outcome(*pvk, *proof, values_view(inputs@)),
{
    let frs: Vec<ark_bls12_381::Fr> = inputs.iter().map(|x| x.0).collect();
    Groth16::<Bls12_381>::verify_proof(&pvk.0, &proof.0, &frs).map_err(|e| match e {
        SynthesisError::MissingCS => SnarkError::MissingCS,
        SynthesisError::AssignmentMissing => SnarkError::AssignmentMissing,
        SynthesisError::DivisionByZero => SnarkError::DivisionByZero,
        SynthesisError::Unsatisfiable => SnarkError::Unsatisfiable,
        SynthesisError::PolynomialDegreeTooLarge => SnarkError::PolynomialDegreeTooLarge,
        SynthesisError::UnexpectedIdentity => SnarkError::UnexpectedIdentity,
        SynthesisError::MalformedVerifyingKey => SnarkError::MalformedVerifyingKey,
        SynthesisError::UnconstrainedVariable => SnarkError::UnconstrainedVariable,
    })
}

/// Checks `proof` against the verifying key and the public inputs, in
/// canonical order. The key is processed once, then the pairing check
/// decides: the result is the SNARK's outcome for exactly these
/// arguments, so repeated verification of equal values agrees.
pub fn verify(vk: &VerifyingKey, proof: &Proof, public_inputs_ordered: &Vec<Fe>) -> (r: Result<
    bool,
    SnarkError,
>)
    ensures
        r == groth16_outcome(prepared_of(*vk), *proof, values_view(public_inputs_ordered@)),
{
    let processed = process_vk(vk);
    groth16_verify(&processed, proof, public_inputs_ordered)
}

/// Relies on `CanonicalSerialize::serialize_compressed`: the canonical
/// compressed encoding of the proof, deterministic in the proof, and of
/// fixed size: two compressed G1 points of 48 bytes and one compressed
/// G2 point of 96 bytes of BLS12-381. Writing to a byte vector cannot
/// fail.
#[verifier::external_body]
pub fn serialize_proof(proof: &Proof) -> (r: Vec<u8>)
    ensures
        r@ == proof_bytes(*proof),
        r@.len() == 192,
{
    let mut bytes = Vec::new();
    proof.0.serialize_compressed(&mut bytes).expect("writing to a byte vector cannot fail");
    bytes
}

/// Relies on `CanonicalDeserialize::deserialize_compressed`: `Some`
/// exactly when the bytes are a well-formed compressed encoding, and
/// deterministic in the bytes.
#[verifier::external_body]
pub fn deserialize_proof(bytes: &[u8]) -> (r: Option<Proof>)
    ensures
        r == decoded_proof(bytes@),
{
    ark_groth16::Proof::<Bls12_381>::deserialize_compressed(&mut &*bytes).ok().map(Proof)
}

// ---------------------------------------------------------------------
// The canonical public-input order
// ---------------------------------------------------------------------

/// `acc` extended with the witness value of each public input from
/// position `k` on, in declared order.
pub open spec fn spec_public_inputs_from(s: SpecR1cs, z: Seq<int>, k: int, acc: Seq<int>) -> Seq<
    int,
>
    decreases s.publics.len() - k,
{
    if k < 0 || k >= s.publics.len() {
        acc
    } else {
        spec_public_inputs_from(s, z, k + 1, acc.push(z[name_pos(s.names, s.publics[k])]))
    }
}

/// The public inputs a verifier must supply: the constant one, then the
/// witness value of each public input, in declared order.
pub open spec fn spec_public_inputs(s: SpecR1cs, z: Seq<int>) -> Seq<int> {
    spec_public_inputs_from(s, z, 0, seq![1int])
}

/// Every public-input name of `s` is an allocated variable.
pub open spec fn publics_allocated(s: SpecR1cs) -> bool {
    forall|k: int|
        0 <= k < s.publics.len() ==> name_pos(s.names, #[trigger] s.publics[k]) < s.names.len()
}

/// Builds the canonical public-input vector from a full witness:
/// the constant one, then `witness[var_map[name]]` for each public-input
/// name in declared order.
pub fn public_inputs_for_verification(r1cs: &R1CSSystem, witness: &Vec<Fe>) -> (r: Vec<Fe>)
    requires
        witness@.len() == r1cs@.names.len(),
        publics_allocated(r1cs@),
    ensures
        values_view(r@) == spec_public_inputs(r1cs@, values_view(witness@)),
{
    let mut out: Vec<Fe> = Vec::new();
    out.push(Fe::from_u64(1));
    proof {
        assert(values_view(out@) =~= seq![1int]);
    }
    let np = r1cs.public_input_names.len();
    let mut k: usize = 0;
    while k < np
        invariant
            np == r1cs@.publics.len(),
            0 <= k <= np,
            witness@.len() == r1cs@.names.len(),
            publics_allocated(r1cs@),
            spec_public_inputs(r1cs@, values_view(witness@)) == spec_public_inputs_from(
                r1cs@,
                values_view(witness@),
                k as int,
                values_view(out@),
            ),
        decreases np - k,
    {
        let name = &r1cs.public_input_names[k];
        proof {
            assert(r1cs@.publics[k as int] == name@);
        }
        let idx = match r1cs.var_map.get(name) {
            Some(i) => i,
            None => {
                proof {
                    assert(false);
                }
                0
            },
        };
        let v = witness[idx].dup();
        let ghost prev = values_view(out@);
        out.push(v);
        proof {
            assert(idx as int == name_pos(r1cs@.names, r1cs@.publics[k as int]));
            assert(fe_value(v) == values_view(witness@)[idx as int]);
            assert(values_view(out@) =~= prev.push(values_view(witness@)[idx as int]));
        }
        k += 1;
    }
    out
}

// ---------------------------------------------------------------------
// The synthesis plan
// ---------------------------------------------------------------------

/// One variable allocation the prover's constraint synthesizer must make.
pub struct PlanAlloc {
    /// The variable's index in the compiled system.
    pub original_index: usize,
    /// Whether it is allocated as a public input.
    pub is_public: bool,
    /// The value it is bound to.
    pub value: Fe,
}

impl View for PlanAlloc {
    type V = (int, bool, int);

    open spec fn view(&self) -> (int, bool, int) {
        (self.original_index as int, self.is_public, fe_value(self.value))
    }
}

/// The views of a sequence of allocations.
pub open spec fn allocs_view(s: Seq<PlanAlloc>) -> Seq<(int, bool, int)> {
    s.map(|i: int, a: PlanAlloc| a@)
}

/// The value the plan binds to variable `i`: the witness value, or zero
/// when no witness is given (during setup) or the index is out of range.
pub open spec fn plan_value(w: Option<Seq<int>>, i: int) -> int {
    match w {
        Some(z) => if 0 <= i < z.len() {
            z[i]
        } else {
            0
        },
        None => 0,
    }
}

/// Whether `n` names a variable the plan allocates as public: the
/// constant-one wire or a declared public input.
pub open spec fn is_public_name(s: SpecR1cs, n: Seq<char>) -> bool {
    n == "1"@ || s.publics.contains(n)
}

/// `acc` extended with one public allocation per public input from
/// position `k` on, in declared order.
pub open spec fn spec_public_allocs_from(
    s: SpecR1cs,
    w: Option<Seq<int>>,
    k: int,
    acc: Seq<(int, bool, int)>,
) -> Seq<(int, bool, int)>
    decreases s.publics.len() - k,
{
    if k < 0 || k >= s.publics.len() {
        acc
    } else {
        spec_public_allocs_from(
            s,
            w,
            k + 1,
            acc.push(
                (
                    name_pos(s.names, s.publics[k]),
                    true,
                    plan_value(w, name_pos(s.names, s.publics[k])),
                ),
            ),
        )
    }
}

/// `acc` extended with one private allocation per variable from index
/// `i` on whose name is not public, in index order.
pub open spec fn spec_private_allocs_from(
    s: SpecR1cs,
    w: Option<Seq<int>>,
    i: int,
    acc: Seq<(int, bool, int)>,
) -> Seq<(int, bool, int)>
    decreases s.names.len() - i,
{
    if i < 0 || i >= s.names.len() {
        acc
    } else if is_public_name(s, s.names[i]) {
        spec_private_allocs_from(s, w, i + 1, acc)
    } else {
        spec_private_allocs_from(s, w, i + 1, acc.push((i, false, plan_value(w, i))))
    }
}

/// The full allocation order: the constant one bound to one, the public
/// inputs in declared order, then the private variables in index order.
pub open spec fn spec_allocations(s: SpecR1cs, w: Option<Seq<int>>) -> Seq<(int, bool, int)> {
    spec_private_allocs_from(s, w, 0, spec_public_allocs_from(s, w, 0, seq![(0int, true, 1int)]))
}

/// Whether `name` is the constant-one wire or one of the declared
/// public-input names.
fn is_public_wire(r1cs: &R1CSSystem, name: &String) -> (r: bool)
    ensures
        r == is_public_name(r1cs@, name@),
{
    let one = String::from_str("1");
    if *name == one {
        return true;
    }
    let np = r1cs.public_input_names.len();
    let mut k: usize = 0;
    while k < np
        invariant
            np == r1cs@.publics.len(),
            0 <= k <= np,
            forall|j: int| 0 <= j < k ==> r1cs@.publics[j] != name@,
        decreases np - k,
    {
        proof {
            assert(r1cs@.publics[k as int] == r1cs.public_input_names@[k as int]@);
        }
        if r1cs.public_input_names[k] == *name {
            return true;
        }
        k += 1;
    }
    proof {
        assert(!r1cs@.publics.contains(name@));
    }
    false
}

/// The allocations the prover's synthesizer must make, in order: the
/// constant one, each public input bound to its witness value (or zero
/// during setup, when no witness exists yet), then every remaining
/// variable in index order. Setup and proving must use the same order,
/// or the proving key and the proof disagree.
pub fn synthesis_allocations(r1cs: &R1CSSystem, witness: Option<&Vec<Fe>>) -> (r: Vec<PlanAlloc>)
    requires
        publics_allocated(r1cs@),
        r1cs@.num_variables == r1cs@.names.len(),
    ensures
        allocs_view(r@) == spec_allocations(
            r1cs@,
            match witness {
                Some(w) => Some(values_view(w@)),
                None => None,
            },
        ),
{
    let ghost wv: Option<Seq<int>> = match witness {
        Some(w) => Some(values_view(w@)),
        None => None,
    };
    let mut out: Vec<PlanAlloc> = Vec::new();
    out.push(PlanAlloc { original_index: 0, is_public: true, value: Fe::from_u64(1) });
    proof {
        assert(allocs_view(out@) =~= seq![(0int, true, 1int)]);
    }

    let np = r1cs.public_input_names.len();
    let mut k: usize = 0;
    while k < np
        invariant
            np == r1cs@.publics.len(),
            0 <= k <= np,
            publics_allocated(r1cs@),
            wv == match witness {
                Some(w) => Some(values_view(w@)),
                None => None,
            },
            spec_public_allocs_from(r1cs@, wv, 0, seq![(0int, true, 1int)])
                == spec_public_allocs_from(r1cs@, wv, k as int, allocs_view(out@)),
        decreases np - k,
    {
        let name = &r1cs.public_input_names[k];
        proof {
            assert(r1cs@.publics[k as int] == name@);
        }
        let idx = match r1cs.var_map.get(name) {
            Some(i) => i,
            None => {
                proof {
                    assert(false);
                }
                0
            },
        };
        let value = plan_value_at(witness, idx);
        proof {
            assert(idx as int == name_pos(r1cs@.names, r1cs@.publics[k as int]));
            assert(fe_value(value) == plan_value(wv, idx as int));
        }
        let ghost prev = allocs_view(out@);
        out.push(PlanAlloc { original_index: idx, is_public: true, value });
        proof {
            assert(allocs_view(out@) =~= prev.push((idx as int, true, plan_value(wv, idx as int))));
        }
        k += 1;
    }

    let nv = r1cs.var_map.len();
    let mut i: usize = 0;
    while i < nv
        invariant
            nv == r1cs@.names.len(),
            0 <= i <= nv,
            publics_allocated(r1cs@),
            wv == match witness {
                Some(w) => Some(values_view(w@)),
                None => None,
            },
            spec_allocations(r1cs@, wv) == spec_private_allocs_from(
                r1cs@,
                wv,
                i as int,
                allocs_view(out@),
            ),
        decreases nv - i,
    {
        let name = r1cs.var_map.name_at(i);
        if !is_public_wire(r1cs, name) {
            let value = plan_value_at(witness, i);
            let ghost prev = allocs_view(out@);
            out.push(PlanAlloc { original_index: i, is_public: false, value });
            proof {
                assert(allocs_view(out@) =~= prev.push((i as int, false, plan_value(wv, i as int))));
            }
        }
        i += 1;
    }
    out
}

/// The witness value at `i`, or zero when there is no witness or no entry.
fn plan_value_at(witness: Option<&Vec<Fe>>, i: usize) -> (r: Fe)
    ensures
        fe_value(r) == plan_value(
            match witness {
                Some(w) => Some(values_view(w@)),
                None => None,
            },
            i as int,
        ),
{
    match witness {
        Some(w) => if i < w.len() {
            w[i].dup()
        } else {
            Fe::from_u64(0)
        },
        None => Fe::from_u64(0),
    }
}

} // verus!
