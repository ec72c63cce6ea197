//! Behavior of the compiler, the evaluator, the parser and the transfer
//! helpers on concrete circuits.

use zk_framework::circuit::{Circuit, Gate};
use zk_framework::field::i32_to_fr;
use zk_framework::parser::parse_circuit;
use zk_framework::r1cs::constraint_holds;
use zk_framework::snark::synthesis_allocations;
use zk_framework::wiremap::WireMap;
use zk_framework::witness::WitnessError;

fn wires(pairs: &[(&str, i32)]) -> WireMap {
    let mut m = WireMap::new();
    for (name, val) in pairs {
        m.insert(name, *val);
    }
    m
}

fn transfer_circuit() -> Circuit {
    Circuit {
        name: String::from("transfer"),
        inputs: wires(&[("a", 10), ("b", 20), ("alice", 50), ("bob", 10)]),
        outputs: WireMap::new(),
        gates: vec![
            Gate::Add(String::from("a"), String::from("b"), String::from("c"), None),
            Gate::Add(
                String::from("c"),
                String::from("transfer_amount_public"),
                String::from("d"),
                None,
            ),
        ],
        sender: String::from("alice"),
        receiver: String::from("bob"),
        transfer_amount: 5,
    }
}

#[test]
fn compilation_is_deterministic() {
    let circuit = transfer_circuit();
    let r1 = circuit.to_r1cs_system();
    let r2 = circuit.to_r1cs_system();
    assert_eq!(r1.num_variables, r2.num_variables);
    assert_eq!(r1.num_public_inputs, r2.num_public_inputs);
    assert_eq!(r1.public_input_names, r2.public_input_names);
    assert_eq!(r1.raw_constraints.len(), r2.raw_constraints.len());
    for k in 0..r1.var_map.len() {
        assert_eq!(r1.var_map.name_at(k), r2.var_map.name_at(k));
    }
    for (c1, c2) in r1.raw_constraints.iter().zip(r2.raw_constraints.iter()) {
        for (t1, t2) in c1.a.iter().zip(c2.a.iter()) {
            assert_eq!(t1.0, t2.0);
            assert!(t1.1.equals(&t2.1));
        }
        for (t1, t2) in c1.b.iter().zip(c2.b.iter()) {
            assert_eq!(t1.0, t2.0);
            assert!(t1.1.equals(&t2.1));
        }
        for (t1, t2) in c1.c.iter().zip(c2.c.iter()) {
            assert_eq!(t1.0, t2.0);
            assert!(t1.1.equals(&t2.1));
        }
    }
}

#[test]
fn index_invariants_hold_after_compilation() {
    let circuit = transfer_circuit();
    let r1cs = circuit.to_r1cs_system();
    assert_eq!(r1cs.var_map.get(&String::from("1")), Some(0));
    assert_eq!(r1cs.num_variables, r1cs.var_map.len());
    assert_eq!(r1cs.num_public_inputs, 1 + r1cs.public_input_names.len());
    for con in &r1cs.raw_constraints {
        for (idx, _coeff) in con.a.iter().chain(con.b.iter()).chain(con.c.iter()) {
            assert!(*idx < r1cs.num_variables);
        }
    }
    assert_eq!(
        r1cs.public_input_names,
        vec![
            String::from("alice_initial_balance"),
            String::from("bob_initial_balance"),
            String::from("transfer_amount_public"),
        ]
    );
}

#[test]
fn xor_rejects_non_boolean_input() {
    let circuit = Circuit {
        name: String::from("s3"),
        inputs: wires(&[("a", 2), ("b", 0)]),
        outputs: WireMap::new(),
        gates: vec![Gate::Xor(String::from("a"), String::from("b"), String::from("c"))],
        sender: String::new(),
        receiver: String::new(),
        transfer_amount: 0,
    };
    let r1cs = circuit.to_r1cs_system();
    match circuit.compute_witness(&r1cs.var_map) {
        Err(e) => assert_eq!(e, WitnessError::NonBooleanInput(String::from("a"))),
        Ok(_) => panic!("a non-boolean xor input must be rejected"),
    }
}

#[test]
fn eq_rejects_mismatched_inputs() {
    let circuit = Circuit {
        name: String::from("s4"),
        inputs: wires(&[("a", 3), ("b", 4)]),
        outputs: WireMap::new(),
        gates: vec![Gate::Eq(String::from("a"), String::from("b"), String::from("d"))],
        sender: String::new(),
        receiver: String::new(),
        transfer_amount: 0,
    };
    let r1cs = circuit.to_r1cs_system();
    match circuit.compute_witness(&r1cs.var_map) {
        Err(e) => assert_eq!(e, WitnessError::EqualityMismatch),
        Ok(_) => panic!("unequal eq inputs must be rejected"),
    }
}

#[test]
fn eq_passes_on_equal_inputs() {
    let circuit = Circuit {
        name: String::from("eq_ok"),
        inputs: wires(&[("a", 3), ("b", 3)]),
        outputs: WireMap::new(),
        gates: vec![Gate::Eq(String::from("a"), String::from("b"), String::from("d"))],
        sender: String::new(),
        receiver: String::new(),
        transfer_amount: 0,
    };
    let r1cs = circuit.to_r1cs_system();
    let witness = circuit.compute_witness(&r1cs.var_map).expect("equal inputs must pass");
    let idx = r1cs.var_map.get(&String::from("d")).unwrap();
    assert!(witness[idx].equals(&i32_to_fr(0)));
}

#[test]
fn undefined_wire_is_reported() {
    let circuit = Circuit {
        name: String::from("undef"),
        inputs: wires(&[("a", 1)]),
        outputs: WireMap::new(),
        gates: vec![Gate::Add(String::from("a"), String::from("ghostly"), String::from("c"), None)],
        sender: String::new(),
        receiver: String::new(),
        transfer_amount: 0,
    };
    let r1cs = circuit.to_r1cs_system();
    match circuit.compute_witness(&r1cs.var_map) {
        Err(e) => assert_eq!(e, WitnessError::UndefinedWire(String::from("ghostly"))),
        Ok(_) => panic!("an undefined wire must be rejected"),
    }
}

#[test]
fn hash_gate_multiplies_by_seven() {
    let circuit = Circuit {
        name: String::from("hash"),
        inputs: wires(&[("x", 6)]),
        outputs: WireMap::new(),
        gates: vec![Gate::Hash(String::from("x"), String::from("y"))],
        sender: String::new(),
        receiver: String::new(),
        transfer_amount: 0,
    };
    let r1cs = circuit.to_r1cs_system();
    let witness = circuit.compute_witness(&r1cs.var_map).expect("witness must pass");
    let idx = r1cs.var_map.get(&String::from("y")).unwrap();
    assert!(witness[idx].equals(&i32_to_fr(42)));
}

#[test]
fn sub_handles_negative_results() {
    let circuit = Circuit {
        name: String::from("sub"),
        inputs: wires(&[("a", 3), ("b", 10)]),
        outputs: WireMap::new(),
        gates: vec![Gate::Sub(String::from("a"), String::from("b"), String::from("c"), None)],
        sender: String::new(),
        receiver: String::new(),
        transfer_amount: 0,
    };
    let r1cs = circuit.to_r1cs_system();
    let witness = circuit.compute_witness(&r1cs.var_map).expect("witness must pass");
    let idx = r1cs.var_map.get(&String::from("c")).unwrap();
    assert!(witness[idx].equals(&i32_to_fr(-7)));
}

#[test]
fn validate_transfer_checks_sender_balance() {
    let mut circuit = transfer_circuit();
    assert!(circuit.validate_transfer());
    circuit.transfer_amount = 51;
    assert!(!circuit.validate_transfer());
    circuit.sender = String::from("nobody");
    assert!(!circuit.validate_transfer());
}

#[test]
fn execute_transfer_moves_the_amount() {
    let mut circuit = transfer_circuit();
    circuit.execute_transfer();
    assert_eq!(circuit.inputs.get(&String::from("alice")), Some(45));
    assert_eq!(circuit.inputs.get(&String::from("bob")), Some(15));
}

#[test]
fn execute_transfer_does_nothing_when_invalid() {
    let mut circuit = transfer_circuit();
    circuit.transfer_amount = 100;
    circuit.execute_transfer();
    assert_eq!(circuit.inputs.get(&String::from("alice")), Some(50));
    assert_eq!(circuit.inputs.get(&String::from("bob")), Some(10));
}

#[test]
fn parser_reads_every_line_form() {
    let text = "name full\n\
        // a comment line\n\
        \n\
        input a 1\n\
        output o -3\n\
        sender alice\n\
        receiver bob\n\
        amount 7\n\
        add a b c\n\
        sub a b d\n\
        mul a b e\n\
        xor a b f\n\
        eq a b g\n\
        const k 9\n\
        hash a h\n";
    let c = parse_circuit(text).expect("well formed");
    assert_eq!(c.name, "full");
    assert_eq!(c.inputs.get(&String::from("a")), Some(1));
    assert_eq!(c.outputs.get(&String::from("o")), Some(-3));
    assert_eq!(c.sender, "alice");
    assert_eq!(c.receiver, "bob");
    assert_eq!(c.transfer_amount, 7);
    assert_eq!(c.gates.len(), 7);
    assert!(matches!(&c.gates[0], Gate::Add(a, b, out, None)
        if a == "a" && b == "b" && out == "c"));
    assert!(matches!(&c.gates[1], Gate::Sub(..)));
    assert!(matches!(&c.gates[2], Gate::Mul(..)));
    assert!(matches!(&c.gates[3], Gate::Xor(..)));
    assert!(matches!(&c.gates[4], Gate::Eq(..)));
    assert!(matches!(&c.gates[5], Gate::Const(k, 9) if k == "k"));
    assert!(matches!(&c.gates[6], Gate::Hash(i, o) if i == "a" && o == "h"));
}

#[test]
fn parser_rejects_malformed_lines() {
    assert!(parse_circuit("bogus a b\n").is_err());
    assert!(parse_circuit("add a b\n").is_err());
    assert!(parse_circuit("input a 12x\n").is_err());
    assert!(parse_circuit("input a 99999999999999\n").is_err());
    assert!(parse_circuit("amount\n").is_err());
    match parse_circuit("name ok\nnonsense\n") {
        Err(err) => assert_eq!(err.line, 2),
        Ok(_) => panic!("an unrecognized line must be rejected"),
    }
}

#[test]
fn parser_accepts_signed_and_bounded_integers() {
    let c = parse_circuit("input lo -2147483648\ninput hi 2147483647\n").expect("in range");
    assert_eq!(c.inputs.get(&String::from("lo")), Some(-2147483648));
    assert_eq!(c.inputs.get(&String::from("hi")), Some(2147483647));
    assert!(parse_circuit("input over 2147483648\n").is_err());
    assert!(parse_circuit("input under -2147483649\n").is_err());
}

#[test]
fn field_embedding_distinguishes_signs() {
    assert!(i32_to_fr(5).equals(&i32_to_fr(5)));
    assert!(!i32_to_fr(5).equals(&i32_to_fr(-5)));
    assert!(i32_to_fr(0).equals(&i32_to_fr(0)));
    assert!(!i32_to_fr(-1).equals(&i32_to_fr(1)));
}

#[test]
fn allocation_order_is_one_then_publics_then_privates() {
    let circuit = transfer_circuit();
    let r1cs = circuit.to_r1cs_system();
    let witness = circuit.compute_witness(&r1cs.var_map).expect("witness must pass");
    let allocations = synthesis_allocations(&r1cs, Some(&witness));
    assert_eq!(allocations.len(), r1cs.num_variables);
    assert_eq!(allocations[0].original_index, 0);
    assert!(allocations[0].is_public);
    assert!(allocations[0].value.equals(&i32_to_fr(1)));
    for k in 0..r1cs.public_input_names.len() {
        let alloc = &allocations[1 + k];
        assert!(alloc.is_public);
        let expected = r1cs.var_map.get(&r1cs.public_input_names[k]).unwrap();
        assert_eq!(alloc.original_index, expected);
        assert!(alloc.value.equals(&witness[expected]));
    }
    let num_public = 1 + r1cs.public_input_names.len();
    let mut last = 0;
    for alloc in &allocations[num_public..] {
        assert!(!alloc.is_public);
        assert!(alloc.original_index >= last);
        last = alloc.original_index;
        assert!(alloc.value.equals(&witness[alloc.original_index]));
    }
    // During setup no witness exists: public values beyond the constant
    // one, and all private values, are zero.
    let blank = synthesis_allocations(&r1cs, None);
    assert!(blank[0].value.equals(&i32_to_fr(1)));
    for alloc in &blank[1..] {
        assert!(alloc.value.equals(&i32_to_fr(0)));
    }
}

#[test]
fn witness_satisfies_every_constraint() {
    let circuits = vec![
        transfer_circuit(),
        Circuit {
            name: String::from("bits"),
            inputs: wires(&[("a", 1), ("b", 0)]),
            outputs: WireMap::new(),
            gates: vec![Gate::Xor(String::from("a"), String::from("b"), String::from("c"))],
            sender: String::new(),
            receiver: String::new(),
            transfer_amount: 0,
        },
        Circuit {
            name: String::from("mixed"),
            inputs: wires(&[("a", 6), ("b", 9)]),
            outputs: WireMap::new(),
            gates: vec![
                Gate::Const(String::from("k"), 7),
                Gate::Mul(String::from("a"), String::from("k"), String::from("out"), None),
                Gate::Sub(String::from("b"), String::from("a"), String::from("d"), None),
                Gate::Hash(String::from("d"), String::from("h")),
                Gate::Eq(String::from("a"), String::from("a2"), String::from("z")),
            ],
            sender: String::new(),
            receiver: String::new(),
            transfer_amount: 0,
        },
    ];
    for mut circuit in circuits {
        circuit.inputs.insert("a2", 6);
        let r1cs = circuit.to_r1cs_system();
        let witness = circuit.compute_witness(&r1cs.var_map).expect("witness must pass");
        assert_eq!(witness.len(), r1cs.num_variables);
        for con in &r1cs.raw_constraints {
            assert!(constraint_holds(con, &witness));
        }
    }
}

#[test]
fn later_input_lines_override_earlier_ones() {
    let c = parse_circuit("input a 1\ninput b 5\ninput a 2\n").expect("well formed");
    assert_eq!(c.inputs.get(&String::from("a")), Some(2));
    assert_eq!(c.inputs.get(&String::from("b")), Some(5));
}

#[test]
fn transfer_to_oneself_changes_nothing() {
    let mut circuit = transfer_circuit();
    circuit.receiver = String::from("alice");
    circuit.execute_transfer();
    assert_eq!(circuit.inputs.get(&String::from("alice")), Some(50));
}

#[test]
fn compilation_allocates_contiguous_indices() {
    let circuit = transfer_circuit();
    let r1cs = circuit.to_r1cs_system();
    for i in 0..r1cs.var_map.len() {
        let name = r1cs.var_map.name_at(i).clone();
        assert_eq!(r1cs.var_map.get(&name), Some(i));
    }
}

#[test]
fn parser_splits_on_unicode_whitespace() {
    let c = parse_circuit("input\u{00A0}a\u{2003}7\n\u{00A0}\u{3000}\nadd a a2 c\n")
        .expect("wide whitespace separates tokens and blanks a line");
    assert_eq!(c.inputs.get(&String::from("a")), Some(7));
    assert_eq!(c.gates.len(), 1);
}
