//! Laws of the compiler and the evaluator.
//!
//! These public proof functions state what holds of every compilation:
//! compilation is deterministic, the variable indices it hands out are
//! well formed, and the witness evaluator rejects what it must reject.

use vstd::prelude::*;
use crate::circuit::{Circuit, Gate};
use crate::r1cs::{
    CompState, SpecConstraint, spec_to_r1cs, comp_from, gate_step, preamble_state, initial_state,
    bind_public, name_pos, name_pos_from, spec_alloc, constraint_indices_below, lc_indices_below,
    spec_lc_insert, term_pos, term_pos_from,
};
use crate::snark::publics_allocated;
use crate::witness::{
    SpecWitErr, spec_compute_witness, eval_gates_from, eval_gate, seed_values, is_boolean,
};
use crate::wiremap::table_lookup;
use crate::r1cs::R1CSSystem;

verus! {

// ---------------------------------------------------------------------
// Facts about name positions
// ---------------------------------------------------------------------

/// What the first-occurrence position means.
pub proof fn lemma_name_pos_from_spec(s: Seq<Seq<char>>, k: Seq<char>, i: int)
    requires
        0 <= i <= s.len(),
    ensures
        ({
            let p = name_pos_from(s, k, i);
            &&& i <= p <= s.len()
            &&& (p < s.len() ==> s[p] == k)
            &&& forall|j: int| i <= j < p ==> s[j] != k
        }),
    decreases s.len() - i,
{
    if i < s.len() && s[i] != k {
        lemma_name_pos_from_spec(s, k, i + 1);
    }
}

/// Appending a name does not move the position of one that is present.
proof fn lemma_name_pos_from_push(s: Seq<Seq<char>>, k: Seq<char>, x: Seq<char>, i: int)
    requires
        0 <= i <= s.len(),
        name_pos_from(s, k, i) < s.len(),
    ensures
        name_pos_from(s.push(x), k, i) == name_pos_from(s, k, i),
    decreases s.len() - i,
{
    assert(s.push(x)[i] == s[i]);
    if i < s.len() && s[i] != k {
        lemma_name_pos_from_push(s, k, x, i + 1);
    }
}

/// A name that is absent sits right after the push that allocates it.
proof fn lemma_name_pos_from_push_absent(s: Seq<Seq<char>>, k: Seq<char>, i: int)
    requires
        0 <= i <= s.len(),
        name_pos_from(s, k, i) == s.len(),
    ensures
        name_pos_from(s.push(k), k, i) == s.len(),
    decreases s.len() - i,
{
    lemma_name_pos_from_spec(s, k, i);
    if i < s.len() {
        assert(s.push(k)[i] == s[i]);
        lemma_name_pos_from_push_absent(s, k, i + 1);
    } else {
        assert(s.push(k)[i] == k);
    }
}

/// What one allocation does: the earlier names stay at their positions,
/// the allocated name has a position below the new length, no name is
/// duplicated, and the constant-one wire stays at position zero.
proof fn lemma_alloc_one(s: Seq<Seq<char>>, k: Seq<char>)
    requires
        s.len() >= 1,
        s[0] == "1"@,
        s.no_duplicates(),
    ensures
        ({
            let s2 = spec_alloc(s, k);
            &&& s.len() <= s2.len()
            &&& 0 <= name_pos(s, k) < s2.len()
            &&& name_pos(s2, k) == name_pos(s, k)
            &&& s2.len() >= 1 && s2[0] == "1"@
            &&& s2.no_duplicates()
            &&& forall|j: int| 0 <= j < s.len() ==> s2[j] == s[j]
            &&& forall|n: Seq<char>|
                #[trigger] name_pos(s, n) < s.len() ==> name_pos(s2, n) == name_pos(s, n)
        }),
{
    lemma_name_pos_from_spec(s, k, 0);
    let s2 = spec_alloc(s, k);
    if name_pos(s, k) < s.len() {
        assert(s2 == s);
    } else {
        assert(s2 == s.push(k));
        lemma_name_pos_from_push_absent(s, k, 0);
        assert forall|j: int| 0 <= j < s.len() implies s[j] != k by {
            lemma_name_pos_from_spec(s, k, 0);
        }
        assert(s2.no_duplicates()) by {
            assert forall|p: int, q: int|
                0 <= p < q < s2.len() implies s2[p] != s2[q] by {
                if q < s.len() {
                    assert(s2[p] == s[p] && s2[q] == s[q]);
                } else {
                    assert(s2[q] == k && s2[p] == s[p]);
                }
            }
        }
        assert forall|n: Seq<char>|
            #[trigger] name_pos(s, n) < s.len() implies name_pos(s2, n) == name_pos(s, n) by {
            lemma_name_pos_from_push(s, n, k, 0);
        }
    }
}

/// What the first-term position means.
proof fn lemma_term_pos_from_spec(s: Seq<(int, int)>, k: int, i: int)
    requires
        0 <= i <= s.len(),
    ensures
        i <= term_pos_from(s, k, i) <= s.len(),
    decreases s.len() - i,
{
    if i < s.len() && s[i].0 != k {
        lemma_term_pos_from_spec(s, k, i + 1);
    }
}

/// Setting a coefficient keeps every term index below `n`.
proof fn lemma_lc_insert_indices(s: Seq<(int, int)>, k: int, v: int, n: int)
    requires
        lc_indices_below(s, n),
        0 <= k < n,
    ensures
        lc_indices_below(spec_lc_insert(s, k, v), n),
{
    lemma_term_pos_from_spec(s, k, 0);
    let s2 = spec_lc_insert(s, k, v);
    assert forall|j: int| 0 <= j < s2.len() implies 0 <= #[trigger] s2[j].0 < n by {
        if term_pos(s, k) < s.len() {
            if j != term_pos(s, k) {
                assert(s2[j] == s[j]);
            }
        } else {
            if j < s.len() {
                assert(s2[j] == s[j]);
            }
        }
    }
}

/// A one-term combination over index `i` stays below `n`.
proof fn lemma_lc_single_indices(i: int, v: int, n: int)
    requires
        0 <= i < n,
    ensures
        lc_indices_below(seq![(i, v)], n),
{
}

/// Pushing an in-range constraint keeps the whole sequence in range.
proof fn lemma_cons_push_ok(cons: Seq<SpecConstraint>, con: SpecConstraint, n: int)
    requires
        forall|j: int| 0 <= j < cons.len() ==> constraint_indices_below(#[trigger] cons[j], n),
        constraint_indices_below(con, n),
    ensures
        forall|j: int|
            0 <= j < cons.push(con).len() ==> constraint_indices_below(
                #[trigger] cons.push(con)[j],
                n,
            ),
{
    assert forall|j: int|
        0 <= j < cons.push(con).len() implies constraint_indices_below(
        #[trigger] cons.push(con)[j],
        n,
    ) by {
        if j < cons.len() {
            assert(cons.push(con)[j] == cons[j]);
        } else {
            assert(cons.push(con)[j] == con);
        }
    }
}

// ---------------------------------------------------------------------
// The compiler's invariant
// ---------------------------------------------------------------------

/// What holds of the compiler's state throughout: the constant-one wire
/// has index zero, no name is allocated twice, every constraint term
/// references an allocated index, and every public-input name is
/// allocated.
pub open spec fn comp_ok(st: CompState) -> bool {
    &&& st.names.len() >= 1
    &&& st.names[0] == "1"@
    &&& st.names.no_duplicates()
    &&& forall|j: int|
        0 <= j < st.cons.len() ==> constraint_indices_below(
            #[trigger] st.cons[j],
            st.names.len() as int,
        )
    &&& forall|k: int|
        0 <= k < st.publics.len() ==> name_pos(st.names, #[trigger] st.publics[k])
            < st.names.len()
}

/// Binding a public input preserves the invariant.
proof fn lemma_bind_public_preserves(st: CompState, name: Seq<char>, val: int)
    requires
        comp_ok(st),
    ensures
        comp_ok(bind_public(st, name, val)),
        bind_public(st, name, val).names.len() >= st.names.len(),
{
    lemma_alloc_one(st.names, name);
    let st2 = bind_public(st, name, val);
    assert forall|k: int|
        0 <= k < st2.publics.len() implies name_pos(st2.names, #[trigger] st2.publics[k])
        < st2.names.len() by {
        if k < st.publics.len() {
            assert(st2.publics[k] == st.publics[k]);
            assert(name_pos(st.names, st.publics[k]) < st.names.len());
        } else {
            assert(st2.publics[k] == name);
        }
    }
    assert forall|j: int|
        0 <= j < st2.cons.len() implies constraint_indices_below(
        #[trigger] st2.cons[j],
        st2.names.len() as int,
    ) by {
        if j < st.cons.len() {
            assert(st2.cons[j] == st.cons[j]);
        } else {
            assert(st2.cons[j] == st2.cons.last());
        }
    }
}

/// One gate preserves the invariant.
pub proof fn lemma_gate_step_preserves(st: CompState, g: Gate)
    requires
        comp_ok(st),
    ensures
        comp_ok(gate_step(st, g)),
        gate_step(st, g).names.len() >= st.names.len(),
        gate_step(st, g).publics == st.publics,
{
    match g {
        Gate::Add(a, b, c, _m) => {
            lemma_gate_three_allocs(st, a@, b@, c@);
            let n1 = spec_alloc(st.names, a@);
            let n2 = spec_alloc(n1, b@);
            let n3 = spec_alloc(n2, c@);
            let nn = n3.len() as int;
            let ia = name_pos(st.names, a@);
            let ib = name_pos(n1, b@);
            let ic = name_pos(n2, c@);
            lemma_lc_insert_indices(seq![], ia, 1, nn);
            lemma_lc_insert_indices(spec_lc_insert(seq![], ia, 1), ib, 1, nn);
            lemma_lc_single_indices(0, 1, nn);
            lemma_lc_single_indices(ic, 1, nn);
            lemma_cons_push_ok(st.cons, gate_step(st, g).cons.last(), nn);
        },
        Gate::Mul(a, b, c, _m) => {
            lemma_gate_three_allocs(st, a@, b@, c@);
            let n1 = spec_alloc(st.names, a@);
            let n2 = spec_alloc(n1, b@);
            let n3 = spec_alloc(n2, c@);
            let nn = n3.len() as int;
            lemma_lc_single_indices(name_pos(st.names, a@), 1, nn);
            lemma_lc_single_indices(name_pos(n1, b@), 1, nn);
            lemma_lc_single_indices(name_pos(n2, c@), 1, nn);
            lemma_cons_push_ok(st.cons, gate_step(st, g).cons.last(), nn);
        },
        Gate::Sub(a, b, c, _m) => {
            lemma_gate_three_allocs(st, a@, b@, c@);
            let n1 = spec_alloc(st.names, a@);
            let n2 = spec_alloc(n1, b@);
            let n3 = spec_alloc(n2, c@);
            let nn = n3.len() as int;
            let ia = name_pos(st.names, a@);
            let ib = name_pos(n1, b@);
            lemma_lc_insert_indices(seq![], ia, 1, nn);
            lemma_lc_insert_indices(
                spec_lc_insert(seq![], ia, 1),
                ib,
                crate::field::field_order() - 1,
                nn,
            );
            lemma_lc_single_indices(0, 1, nn);
            lemma_lc_single_indices(name_pos(n2, c@), 1, nn);
            lemma_cons_push_ok(st.cons, gate_step(st, g).cons.last(), nn);
        },
        Gate::Eq(a, b, out) => {
            lemma_gate_three_allocs(st, a@, b@, out@);
            let n1 = spec_alloc(st.names, a@);
            let n2 = spec_alloc(n1, b@);
            let n3 = spec_alloc(n2, out@);
            let nn = n3.len() as int;
            let ia = name_pos(st.names, a@);
            let ib = name_pos(n1, b@);
            let io = name_pos(n2, out@);
            lemma_lc_insert_indices(seq![], ia, 1, nn);
            lemma_lc_insert_indices(
                spec_lc_insert(seq![], ia, 1),
                ib,
                crate::field::field_order() - 1,
                nn,
            );
            lemma_lc_single_indices(0, 1, nn);
            lemma_lc_single_indices(io, 1, nn);
            lemma_lc_single_indices(0, 0, nn);
            let la = spec_lc_insert(spec_lc_insert(seq![], ia, 1), ib, crate::field::field_order() - 1);
            let con1 = SpecConstraint { a: la, b: seq![(0int, 1int)], c: seq![(io, 1int)] };
            let con2 = SpecConstraint {
                a: seq![(io, 1int)],
                b: seq![(io, 1int)],
                c: seq![(0int, 0int)],
            };
            lemma_cons_push_ok(st.cons, con1, nn);
            lemma_cons_push_ok(st.cons.push(con1), con2, nn);
        },
        Gate::Hash(input, output) => {
            lemma_alloc_one(st.names, input@);
            let n1 = spec_alloc(st.names, input@);
            lemma_alloc_one(n1, output@);
            let n2 = spec_alloc(n1, output@);
            let nn = n2.len() as int;
            lemma_publics_stable(st, n2);
            lemma_cons_stable(st, n2);
            lemma_lc_single_indices(name_pos(st.names, input@), 1, nn);
            lemma_lc_single_indices(0, 7, nn);
            lemma_lc_single_indices(name_pos(n1, output@), 1, nn);
            lemma_cons_push_ok(st.cons, gate_step(st, g).cons.last(), nn);
        },
        Gate::Const(name, val) => {
            lemma_alloc_one(st.names, name@);
            let n1 = spec_alloc(st.names, name@);
            let nn = n1.len() as int;
            lemma_publics_stable(st, n1);
            lemma_cons_stable(st, n1);
            lemma_lc_single_indices(0, crate::field::spec_i32_to_field(val as int), nn);
            lemma_lc_single_indices(0, 1, nn);
            lemma_lc_single_indices(name_pos(st.names, name@), 1, nn);
            lemma_cons_push_ok(st.cons, gate_step(st, g).cons.last(), nn);
        },
        Gate::Xor(a, b, c) => {
            let prod = a@ + "_xor_prod_"@ + b@;
            lemma_alloc_one(st.names, a@);
            let n1 = spec_alloc(st.names, a@);
            lemma_alloc_one(n1, b@);
            let n2 = spec_alloc(n1, b@);
            lemma_alloc_one(n2, prod);
            let n3 = spec_alloc(n2, prod);
            lemma_alloc_one(n3, c@);
            let n4 = spec_alloc(n3, c@);
            let nn = n4.len() as int;
            lemma_publics_stable(st, n4);
            lemma_cons_stable(st, n4);
            let ia = name_pos(st.names, a@);
            let ib = name_pos(n1, b@);
            let ip = name_pos(n2, prod);
            let ic = name_pos(n3, c@);
            let con1 = SpecConstraint {
                a: seq![(ia, 1int)],
                b: seq![(ib, 1int)],
                c: seq![(ip, 1int)],
            };
            let la2 = spec_lc_insert(
                spec_lc_insert(spec_lc_insert(seq![], ia, 1), ib, 1),
                ip,
                crate::field::field_order() - 2,
            );
            let con2 = SpecConstraint { a: la2, b: seq![(0int, 1int)], c: seq![(ic, 1int)] };
            let con3 = SpecConstraint {
                a: seq![(ia, 1int)],
                b: seq![(ia, 1int)],
                c: seq![(ia, 1int)],
            };
            let con4 = SpecConstraint {
                a: seq![(ib, 1int)],
                b: seq![(ib, 1int)],
                c: seq![(ib, 1int)],
            };
            lemma_lc_single_indices(ia, 1, nn);
            lemma_lc_single_indices(ib, 1, nn);
            lemma_lc_single_indices(ip, 1, nn);
            lemma_lc_single_indices(ic, 1, nn);
            lemma_lc_single_indices(0, 1, nn);
            lemma_lc_insert_indices(seq![], ia, 1, nn);
            lemma_lc_insert_indices(spec_lc_insert(seq![], ia, 1), ib, 1, nn);
            lemma_lc_insert_indices(
                spec_lc_insert(spec_lc_insert(seq![], ia, 1), ib, 1),
                ip,
                crate::field::field_order() - 2,
                nn,
            );
            lemma_cons_push_ok(st.cons, con1, nn);
            lemma_cons_push_ok(st.cons.push(con1), con2, nn);
            lemma_cons_push_ok(st.cons.push(con1).push(con2), con3, nn);
            lemma_cons_push_ok(st.cons.push(con1).push(con2).push(con3), con4, nn);
        },
    }
}

/// The common case of a gate that allocates three wires in order.
proof fn lemma_gate_three_allocs(st: CompState, a: Seq<char>, b: Seq<char>, c: Seq<char>)
    requires
        comp_ok(st),
    ensures
        ({
            let n1 = spec_alloc(st.names, a);
            let n2 = spec_alloc(n1, b);
            let n3 = spec_alloc(n2, c);
            &&& n3.len() >= st.names.len()
            &&& n3.len() >= 1 && n3[0] == "1"@ && n3.no_duplicates()
            &&& 0 <= name_pos(st.names, a) < n3.len()
            &&& 0 <= name_pos(n1, b) < n3.len()
            &&& 0 <= name_pos(n2, c) < n3.len()
            &&& forall|k: int|
                0 <= k < st.publics.len() ==> name_pos(n3, #[trigger] st.publics[k]) < n3.len()
            &&& forall|j: int|
                0 <= j < st.cons.len() ==> constraint_indices_below(
                    #[trigger] st.cons[j],
                    n3.len() as int,
                )
        }),
{
    lemma_alloc_one(st.names, a);
    let n1 = spec_alloc(st.names, a);
    lemma_alloc_one(n1, b);
    let n2 = spec_alloc(n1, b);
    lemma_alloc_one(n2, c);
    let n3 = spec_alloc(n2, c);
    lemma_publics_stable(st, n3);
    lemma_cons_stable(st, n3);
}

/// Public names stay allocated as the name sequence grows.
proof fn lemma_publics_stable(st: CompState, names2: Seq<Seq<char>>)
    requires
        comp_ok(st),
        names2.len() >= st.names.len(),
        forall|n: Seq<char>|
            #[trigger] name_pos(st.names, n) < st.names.len() ==> name_pos(names2, n) == name_pos(
                st.names,
                n,
            ),
    ensures
        forall|k: int|
            0 <= k < st.publics.len() ==> name_pos(names2, #[trigger] st.publics[k])
                < names2.len(),
{
    assert forall|k: int|
        0 <= k < st.publics.len() implies name_pos(names2, #[trigger] st.publics[k])
        < names2.len() by {
        assert(name_pos(st.names, st.publics[k]) < st.names.len());
    }
}

/// Emitted constraints stay in range as the name sequence grows.
proof fn lemma_cons_stable(st: CompState, names2: Seq<Seq<char>>)
    requires
        comp_ok(st),
        names2.len() >= st.names.len(),
    ensures
        forall|j: int|
            0 <= j < st.cons.len() ==> constraint_indices_below(
                #[trigger] st.cons[j],
                names2.len() as int,
            ),
{
}

/// The invariant holds after the preamble.
pub proof fn lemma_preamble_ok(c: Circuit)
    ensures
        comp_ok(preamble_state(c)),
{
    let st0 = initial_state();
    assert(comp_ok(st0));
    let st1 = match table_lookup(c.inputs@, c.sender@) {
        Some(bal) => bind_public(st0, c.sender@ + "_initial_balance"@, crate::field::spec_i32_to_field(bal)),
        None => st0,
    };
    match table_lookup(c.inputs@, c.sender@) {
        Some(bal) => {
            lemma_bind_public_preserves(st0, c.sender@ + "_initial_balance"@, crate::field::spec_i32_to_field(bal));
        },
        None => {},
    }
    let st2 = match table_lookup(c.inputs@, c.receiver@) {
        Some(bal) => bind_public(st1, c.receiver@ + "_initial_balance"@, crate::field::spec_i32_to_field(bal)),
        None => st1,
    };
    match table_lookup(c.inputs@, c.receiver@) {
        Some(bal) => {
            lemma_bind_public_preserves(st1, c.receiver@ + "_initial_balance"@, crate::field::spec_i32_to_field(bal));
        },
        None => {},
    }
    lemma_bind_public_preserves(
        st2,
        "transfer_amount_public"@,
        crate::field::spec_i32_to_field(c.transfer_amount as int),
    );
}

/// The invariant survives the whole gate fold.
proof fn lemma_comp_from_preserves(st: CompState, gates: Seq<Gate>, i: int)
    requires
        comp_ok(st),
    ensures
        comp_ok(comp_from(st, gates, i)),
    decreases gates.len() - i,
{
    if 0 <= i < gates.len() {
        lemma_gate_step_preserves(st, gates[i]);
        lemma_comp_from_preserves(gate_step(st, gates[i]), gates, i + 1);
    }
}

// ---------------------------------------------------------------------
// The laws
// ---------------------------------------------------------------------

/// Determinism of compilation: the compiled system is a function of the
/// circuit alone, so any two compilations of one circuit agree on the
/// constraint sequence, the variable map and the public-input order.
pub proof fn lemma_compilation_deterministic(c: Circuit, r1: R1CSSystem, r2: R1CSSystem)
    requires
        r1@ == spec_to_r1cs(c),
        r2@ == spec_to_r1cs(c),
    ensures
        r1@.constraints == r2@.constraints,
        r1@.names == r2@.names,
        r1@.publics == r2@.publics,
        r1@.num_variables == r2@.num_variables,
        r1@.num_public_inputs == r2@.num_public_inputs,
{
}

/// Index invariants of compilation: the constant-one wire has index
/// zero, indices are the contiguous positions of the name sequence and
/// no name appears twice, every constraint term references an index
/// below `num_variables`, the public-input count is one more than the
/// number of public-input names, and every public-input name is an
/// allocated variable.
pub proof fn lemma_index_invariants(c: Circuit)
    ensures
        ({
            let s = spec_to_r1cs(c);
            &&& s.names.len() >= 1
            &&& s.names[0] == "1"@
            &&& s.names.no_duplicates()
            &&& s.num_variables == s.names.len()
            &&& s.num_public_inputs == 1 + s.publics.len()
            &&& forall|j: int|
                0 <= j < s.constraints.len() ==> constraint_indices_below(
                    #[trigger] s.constraints[j],
                    s.num_variables,
                )
            &&& publics_allocated(s)
        }),
{
    lemma_preamble_ok(c);
    lemma_comp_from_preserves(preamble_state(c), c.gates@, 0);
}

/// Equality gates detect mismatches: whenever evaluation reaches an
/// equality gate whose two inputs hold different values, witness
/// computation fails with `EqualityMismatch`.
pub proof fn lemma_eq_mismatch_detected(
    c: Circuit,
    names: Seq<Seq<char>>,
    k: int,
    m: Seq<(Seq<char>, int)>,
)
    requires
        0 <= k < c.gates@.len(),
        c.gates@[k] is Eq,
        eval_gates_from(seed_values(c), c.gates@, 0) == eval_gates_from(m, c.gates@, k),
        table_lookup(m, c.gates@[k]->Eq_0@) is Some,
        table_lookup(m, c.gates@[k]->Eq_1@) is Some,
        table_lookup(m, c.gates@[k]->Eq_0@) != table_lookup(m, c.gates@[k]->Eq_1@),
    ensures
        spec_compute_witness(c, names) == Err::<Seq<int>, SpecWitErr>(SpecWitErr::EqualityMismatch),
{
    assert(eval_gate(m, c.gates@[k]) == Err::<Seq<(Seq<char>, int)>, SpecWitErr>(
        SpecWitErr::EqualityMismatch,
    ));
}

/// Xor gates reject non-boolean inputs: whenever evaluation reaches an
/// xor gate whose first input is neither zero nor one, witness
/// computation fails with `NonBooleanInput` naming that wire.
pub proof fn lemma_xor_non_boolean_detected(
    c: Circuit,
    names: Seq<Seq<char>>,
    k: int,
    m: Seq<(Seq<char>, int)>,
)
    requires
        0 <= k < c.gates@.len(),
        c.gates@[k] is Xor,
        eval_gates_from(seed_values(c), c.gates@, 0) == eval_gates_from(m, c.gates@, k),
        table_lookup(m, c.gates@[k]->Xor_0@) is Some,
        table_lookup(m, c.gates@[k]->Xor_1@) is Some,
        !is_boolean(table_lookup(m, c.gates@[k]->Xor_0@)->Some_0),
    ensures
        spec_compute_witness(c, names) == Err::<Seq<int>, SpecWitErr>(
            SpecWitErr::NonBooleanInput(c.gates@[k]->Xor_0@),
        ),
{
    assert(eval_gate(m, c.gates@[k]) == Err::<Seq<(Seq<char>, int)>, SpecWitErr>(
        SpecWitErr::NonBooleanInput(c.gates@[k]->Xor_0@),
    ));
}

/// The same for the second input: when the first input is a bit but the
/// second is not, witness computation fails naming the second wire.
pub proof fn lemma_xor_second_non_boolean_detected(
    c: Circuit,
    names: Seq<Seq<char>>,
    k: int,
    m: Seq<(Seq<char>, int)>,
)
    requires
        0 <= k < c.gates@.len(),
        c.gates@[k] is Xor,
        eval_gates_from(seed_values(c), c.gates@, 0) == eval_gates_from(m, c.gates@, k),
        table_lookup(m, c.gates@[k]->Xor_0@) is Some,
        table_lookup(m, c.gates@[k]->Xor_1@) is Some,
        is_boolean(table_lookup(m, c.gates@[k]->Xor_0@)->Some_0),
        !is_boolean(table_lookup(m, c.gates@[k]->Xor_1@)->Some_0),
    ensures
        spec_compute_witness(c, names) == Err::<Seq<int>, SpecWitErr>(
            SpecWitErr::NonBooleanInput(c.gates@[k]->Xor_1@),
        ),
{
    assert(eval_gate(m, c.gates@[k]) == Err::<Seq<(Seq<char>, int)>, SpecWitErr>(
        SpecWitErr::NonBooleanInput(c.gates@[k]->Xor_1@),
    ));
}

} // verus!
