//! End-to-end runs of the circuit -> R1CS -> witness -> proof -> verify
//! pipeline, against the real Groth16 prover over BLS12-381.

use ark_bls12_381::{Bls12_381, Fr};
use ark_crypto_primitives::snark::SNARK;
use ark_groth16::Groth16;
use ark_relations::r1cs::{
    ConstraintSynthesizer, ConstraintSystemRef, LinearCombination, SynthesisError, Variable,
};
use rand::rngs::OsRng;

use zk_framework::circuit::{Circuit, Gate};
use zk_framework::field::{i32_to_fr, Fe};
use zk_framework::parser::parse_circuit;
use zk_framework::r1cs::R1CSSystem;
use zk_framework::snark::{
    deserialize_proof, public_inputs_for_verification, serialize_proof, synthesis_allocations,
    verify, PlanAlloc, Proof, ProvingKey, VerifyingKey,
};
use zk_framework::wiremap::WireMap;

/// Replays the allocation plan and the compiled constraints into the
/// prover's constraint system, in the plan's order.
struct PlanSynthesizer<'a> {
    r1cs: &'a R1CSSystem,
    allocations: Vec<PlanAlloc>,
}

impl<'a> ConstraintSynthesizer<Fr> for PlanSynthesizer<'a> {
    fn generate_constraints(self, cs: ConstraintSystemRef<Fr>) -> Result<(), SynthesisError> {
        let mut vars: Vec<Option<Variable>> = vec![None; self.r1cs.num_variables];
        for alloc in &self.allocations {
            let value = alloc.value.0;
            let var = if alloc.is_public {
                cs.new_input_variable(|| Ok(value))?
            } else {
                cs.new_witness_variable(|| Ok(value))?
            };
            vars[alloc.original_index] = Some(var);
        }
        for con in &self.r1cs.raw_constraints {
            let mut la = LinearCombination::zero();
            let mut lb = LinearCombination::zero();
            let mut lc = LinearCombination::zero();
            for (idx, coeff) in &con.a {
                la += (coeff.0, vars[*idx].ok_or(SynthesisError::AssignmentMissing)?);
            }
            for (idx, coeff) in &con.b {
                lb += (coeff.0, vars[*idx].ok_or(SynthesisError::AssignmentMissing)?);
            }
            for (idx, coeff) in &con.c {
                lc += (coeff.0, vars[*idx].ok_or(SynthesisError::AssignmentMissing)?);
            }
            cs.enforce_constraint(la, lb, lc)?;
        }
        Ok(())
    }
}

fn setup(r1cs: &R1CSSystem) -> (ProvingKey, VerifyingKey) {
    let synth = PlanSynthesizer { r1cs, allocations: synthesis_allocations(r1cs, None) };
    let mut rng = OsRng;
    let (pk, vk) =
        Groth16::<Bls12_381>::circuit_specific_setup(synth, &mut rng).expect("setup failed");
    (ProvingKey(pk), VerifyingKey(vk))
}

fn prove(r1cs: &R1CSSystem, pk: &ProvingKey, witness: &Vec<Fe>) -> Proof {
    let synth = PlanSynthesizer { r1cs, allocations: synthesis_allocations(r1cs, Some(witness)) };
    let mut rng = OsRng;
    Proof(Groth16::<Bls12_381>::prove(&pk.0, synth, &mut rng).expect("proving failed"))
}

fn wires(pairs: &[(&str, i32)]) -> WireMap {
    let mut m = WireMap::new();
    for (name, val) in pairs {
        m.insert(name, *val);
    }
    m
}

fn run_end_to_end(circuit: &Circuit) -> (R1CSSystem, Vec<Fe>, VerifyingKey, Proof, Vec<Fe>) {
    let r1cs = circuit.to_r1cs_system();
    let (pk, vk) = setup(&r1cs);
    let witness = circuit.compute_witness(&r1cs.var_map).expect("witness failed");
    let proof = prove(&r1cs, &pk, &witness);
    let public_inputs = public_inputs_for_verification(&r1cs, &witness);
    (r1cs, witness, vk, proof, public_inputs)
}

fn witness_value(r1cs: &R1CSSystem, witness: &Vec<Fe>, name: &str) -> Fe {
    let idx = r1cs.var_map.get(&String::from(name)).expect("name not allocated");
    witness[idx].dup()
}

#[test]
fn test_simple_circuit_groth16() {
    let circuit = Circuit {
        name: String::from("test_add"),
        inputs: wires(&[("a", 10), ("b", 20)]),
        outputs: WireMap::new(),
        gates: vec![
            Gate::Add(String::from("a"), String::from("b"), String::from("c"), None),
            Gate::Add(
                String::from("c"),
                String::from("transfer_amount_public"),
                String::from("d"),
                None,
            ),
        ],
        sender: String::from("alice"),
        receiver: String::from("bob"),
        transfer_amount: 5,
    };

    let r1cs = circuit.to_r1cs_system();
    assert!(r1cs.var_map.contains_key(&String::from("1")));
    assert!(r1cs.var_map.contains_key(&String::from("a")));
    assert!(r1cs.var_map.contains_key(&String::from("b")));
    assert!(r1cs.var_map.contains_key(&String::from("c")));
    assert!(r1cs.var_map.contains_key(&String::from("d")));
    assert!(r1cs.var_map.contains_key(&String::from("transfer_amount_public")));

    let (pk, vk) = setup(&r1cs);
    let witness = circuit.compute_witness(&r1cs.var_map).expect("Witness computation failed");

    assert!(witness_value(&r1cs, &witness, "c").equals(&i32_to_fr(30)));
    assert!(witness_value(&r1cs, &witness, "d").equals(&i32_to_fr(35)));
    assert!(witness_value(&r1cs, &witness, "transfer_amount_public").equals(&i32_to_fr(5)));

    let proof = prove(&r1cs, &pk, &witness);
    let public_inputs = public_inputs_for_verification(&r1cs, &witness);
    assert_eq!(public_inputs.len(), r1cs.num_public_inputs);

    let is_valid = verify(&vk, &proof, &public_inputs).expect("Verification threw error");
    assert!(is_valid, "Proof should be valid!");
}

#[test]
fn add_chain_proves_and_verifies() {
    // Inputs a=10, b=20, amount 5 between alice and bob; two chained adds.
    let circuit = Circuit {
        name: String::from("s1"),
        inputs: wires(&[("a", 10), ("b", 20), ("alice", 50), ("bob", 10)]),
        outputs: WireMap::new(),
        gates: vec![
            Gate::Add(String::from("a"), String::from("b"), String::from("c"), None),
            Gate::Add(
                String::from("c"),
                String::from("transfer_amount_public"),
                String::from("d"),
                None,
            ),
        ],
        sender: String::from("alice"),
        receiver: String::from("bob"),
        transfer_amount: 5,
    };
    let (r1cs, witness, vk, proof, public_inputs) = run_end_to_end(&circuit);
    assert!(witness_value(&r1cs, &witness, "c").equals(&i32_to_fr(30)));
    assert!(witness_value(&r1cs, &witness, "d").equals(&i32_to_fr(35)));
    assert!(witness_value(&r1cs, &witness, "transfer_amount_public").equals(&i32_to_fr(5)));
    assert_eq!(verify(&vk, &proof, &public_inputs), Ok(true));
}

#[test]
fn xor_proves_and_verifies() {
    let circuit = Circuit {
        name: String::from("s2"),
        inputs: wires(&[("a", 1), ("b", 0)]),
        outputs: WireMap::new(),
        gates: vec![Gate::Xor(String::from("a"), String::from("b"), String::from("c"))],
        sender: String::new(),
        receiver: String::new(),
        transfer_amount: 0,
    };
    let (r1cs, witness, vk, proof, public_inputs) = run_end_to_end(&circuit);
    assert!(witness_value(&r1cs, &witness, "c").equals(&i32_to_fr(1)));
    assert_eq!(verify(&vk, &proof, &public_inputs), Ok(true));
}

#[test]
fn const_and_mul_prove_and_verify() {
    let circuit = Circuit {
        name: String::from("s5"),
        inputs: wires(&[("a", 6)]),
        outputs: WireMap::new(),
        gates: vec![
            Gate::Const(String::from("k"), 7),
            Gate::Mul(String::from("a"), String::from("k"), String::from("out"), None),
        ],
        sender: String::new(),
        receiver: String::new(),
        transfer_amount: 0,
    };
    let (r1cs, witness, vk, proof, public_inputs) = run_end_to_end(&circuit);
    assert!(witness_value(&r1cs, &witness, "out").equals(&i32_to_fr(42)));
    assert_eq!(verify(&vk, &proof, &public_inputs), Ok(true));
}

#[test]
fn tampered_public_input_fails_verification() {
    // Run the add chain, then verify with the transfer amount replaced.
    let circuit = Circuit {
        name: String::from("s6"),
        inputs: wires(&[("a", 10), ("b", 20), ("alice", 50), ("bob", 10)]),
        outputs: WireMap::new(),
        gates: vec![
            Gate::Add(String::from("a"), String::from("b"), String::from("c"), None),
            Gate::Add(
                String::from("c"),
                String::from("transfer_amount_public"),
                String::from("d"),
                None,
            ),
        ],
        sender: String::from("alice"),
        receiver: String::from("bob"),
        transfer_amount: 5,
    };
    let (r1cs, _witness, vk, proof, mut public_inputs) = run_end_to_end(&circuit);
    let pos = 1 + r1cs
        .public_input_names
        .iter()
        .position(|n| n == "transfer_amount_public")
        .expect("transfer amount must be a public input");
    public_inputs[pos] = i32_to_fr(6);
    assert_eq!(verify(&vk, &proof, &public_inputs), Ok(false));
}

#[test]
fn every_flipped_public_input_fails_verification() {
    let circuit = Circuit {
        name: String::from("flip"),
        inputs: wires(&[("a", 10), ("b", 20), ("alice", 50), ("bob", 10)]),
        outputs: WireMap::new(),
        gates: vec![Gate::Add(String::from("a"), String::from("b"), String::from("c"), None)],
        sender: String::from("alice"),
        receiver: String::from("bob"),
        transfer_amount: 5,
    };
    let (_r1cs, _witness, vk, proof, public_inputs) = run_end_to_end(&circuit);
    for k in 0..public_inputs.len() {
        let mut flipped: Vec<Fe> = public_inputs.iter().map(|x| x.dup()).collect();
        flipped[k] = if flipped[k].equals(&i32_to_fr(99)) { i32_to_fr(98) } else { i32_to_fr(99) };
        let outcome = verify(&vk, &proof, &flipped);
        assert_ne!(outcome, Ok(true), "flipping public input {} must not verify", k);
    }
}

#[test]
fn tampered_proof_bytes_never_verify() {
    let circuit = Circuit {
        name: String::from("tamper"),
        inputs: wires(&[("a", 3), ("b", 4)]),
        outputs: WireMap::new(),
        gates: vec![Gate::Add(String::from("a"), String::from("b"), String::from("c"), None)],
        sender: String::new(),
        receiver: String::new(),
        transfer_amount: 0,
    };
    let (_r1cs, _witness, vk, proof, public_inputs) = run_end_to_end(&circuit);
    let bytes = serialize_proof(&proof);
    for at in [0usize, bytes.len() / 2, bytes.len() - 1] {
        let mut bad = bytes.clone();
        bad[at] ^= 0x01;
        match deserialize_proof(&bad) {
            None => {},
            Some(tampered) => {
                let outcome = verify(&vk, &tampered, &public_inputs);
                assert_ne!(outcome, Ok(true), "tampered proof byte {} must not verify", at);
            },
        }
    }
}

#[test]
fn proof_serialization_round_trips() {
    let circuit = Circuit {
        name: String::from("roundtrip"),
        inputs: wires(&[("a", 3), ("b", 4)]),
        outputs: WireMap::new(),
        gates: vec![Gate::Add(String::from("a"), String::from("b"), String::from("c"), None)],
        sender: String::new(),
        receiver: String::new(),
        transfer_amount: 0,
    };
    let (_r1cs, _witness, vk, proof, public_inputs) = run_end_to_end(&circuit);
    let bytes = serialize_proof(&proof);
    let restored = deserialize_proof(&bytes).expect("canonical bytes must deserialize");
    assert_eq!(verify(&vk, &restored, &public_inputs), Ok(true));
}

#[test]
fn parsed_circuit_runs_end_to_end() {
    let text = "\
name parsed\n\
// balances and the transfer\n\
input a 10\n\
input b 20\n\
input alice 50\n\
input bob 10\n\
sender alice\n\
receiver bob\n\
amount 5\n\
add a b c\n\
add c transfer_amount_public d\n";
    let circuit = parse_circuit(text).expect("the text is well formed");
    assert_eq!(circuit.name, "parsed");
    let (r1cs, witness, vk, proof, public_inputs) = run_end_to_end(&circuit);
    assert!(witness_value(&r1cs, &witness, "d").equals(&i32_to_fr(35)));
    assert_eq!(verify(&vk, &proof, &public_inputs), Ok(true));
}

#[test]
fn wrong_public_input_count_is_a_structural_error() {
    let circuit = Circuit {
        name: String::from("short"),
        inputs: wires(&[("a", 1), ("b", 2)]),
        outputs: WireMap::new(),
        gates: vec![Gate::Add(String::from("a"), String::from("b"), String::from("c"), None)],
        sender: String::new(),
        receiver: String::new(),
        transfer_amount: 0,
    };
    let (_r1cs, _witness, vk, proof, mut public_inputs) = run_end_to_end(&circuit);
    public_inputs.pop();
    assert!(verify(&vk, &proof, &public_inputs).is_err());
}

#[test]
fn proof_serialization_is_deterministic_and_fixed_size() {
    let circuit = Circuit {
        name: String::from("bytes"),
        inputs: wires(&[("a", 3), ("b", 4)]),
        outputs: WireMap::new(),
        gates: vec![Gate::Add(String::from("a"), String::from("b"), String::from("c"), None)],
        sender: String::new(),
        receiver: String::new(),
        transfer_amount: 0,
    };
    let (_r1cs, _witness, _vk, proof, _public_inputs) = run_end_to_end(&circuit);
    let once = serialize_proof(&proof);
    let again = serialize_proof(&proof);
    assert_eq!(once, again);
    assert_eq!(once.len(), 192);
}

#[test]
fn repeated_verification_agrees() {
    let circuit = Circuit {
        name: String::from("again"),
        inputs: wires(&[("a", 3), ("b", 4)]),
        outputs: WireMap::new(),
        gates: vec![Gate::Add(String::from("a"), String::from("b"), String::from("c"), None)],
        sender: String::new(),
        receiver: String::new(),
        transfer_amount: 0,
    };
    let (_r1cs, _witness, vk, proof, public_inputs) = run_end_to_end(&circuit);
    assert_eq!(verify(&vk, &proof, &public_inputs), verify(&vk, &proof, &public_inputs));
    assert_eq!(verify(&vk, &proof, &public_inputs), Ok(true));
}
