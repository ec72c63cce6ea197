//! The witness satisfies the constraints.
//!
//! [`lemma_witness_satisfies_constraints`] is the library's central
//! theorem: when witness evaluation succeeds on a circuit whose gates
//! write only fresh wires and read two distinct wires where two are read,
//! the assignment vector satisfies every compiled constraint
//! `(A.z) * (B.z) = C.z` in the scalar field.

use vstd::prelude::*;
use vstd::arithmetic::div_mod::{
    lemma_mod_twice, lemma_mod_multiples_vanish, lemma_sub_mod_noop, lemma_mod_bound,
    lemma_small_mod,
};
use crate::circuit::{Circuit, Gate};
use crate::field::Fe;
use crate::r1cs::R1CSSystem;
use crate::field::{field_order, spec_i32_to_field};
use crate::wiremap::{table_lookup, table_insert, key_pos, key_pos_from};
use crate::r1cs::{
    CompState, spec_to_r1cs, comp_from, gate_step, preamble_state, bind_public, name_pos,
    spec_alloc, lc_sum, constraint_satisfied, spec_lc_insert, term_pos_from,
};
use crate::witness::{
    spec_compute_witness, eval_gates_from, eval_gate, seed_values, is_boolean, project_from,
    SpecWitErr,
};
use crate::laws::comp_ok;

verus! {

// ---------------------------------------------------------------------
// The hypotheses of the theorem
// ---------------------------------------------------------------------

/// Whether the wires a gate writes are all undefined in `m`. A gate that
/// overwrote a wire would change a value an earlier constraint refers to.
pub open spec fn gate_writes_fresh(m: Seq<(Seq<char>, int)>, g: Gate) -> bool {
    match g {
        Gate::Add(_a, _b, c, _w) => table_lookup(m, c@) is None,
        Gate::Mul(_a, _b, c, _w) => table_lookup(m, c@) is None,
        Gate::Sub(_a, _b, c, _w) => table_lookup(m, c@) is None,
        Gate::Eq(_a, _b, out) => table_lookup(m, out@) is None,
        Gate::Hash(_input, output) => table_lookup(m, output@) is None,
        Gate::Const(name, _v) => table_lookup(m, name@) is None,
        Gate::Xor(a, b, c) => {
            let prod = a@ + "_xor_prod_"@ + b@;
            &&& table_lookup(m, prod) is None
            &&& table_lookup(m, c@) is None
            &&& c@ != prod
        },
    }
}

/// Whether every gate of a successful run writes only fresh wires.
pub open spec fn run_write_once(m: Seq<(Seq<char>, int)>, gates: Seq<Gate>, i: int) -> bool
    decreases gates.len() - i,
{
    if i < 0 || i >= gates.len() {
        true
    } else {
        match eval_gate(m, gates[i]) {
            Ok(m2) => gate_writes_fresh(m, gates[i]) && run_write_once(m2, gates, i + 1),
            Err(_e) => true,
        }
    }
}

/// Whether the two wires a gate reads are distinct where the constraint
/// builder would otherwise collapse their terms into one.
pub open spec fn gate_operands_distinct(g: Gate) -> bool {
    match g {
        Gate::Add(a, b, _c, _w) => a@ != b@,
        Gate::Sub(a, b, _c, _w) => a@ != b@,
        Gate::Eq(a, b, _out) => a@ != b@,
        Gate::Xor(a, b, _c) => a@ != b@,
        Gate::Mul(_a, _b, _c, _w) => true,
        Gate::Hash(_input, _output) => true,
        Gate::Const(_name, _v) => true,
    }
}

/// Whether every gate reads distinct wires where it must.
pub open spec fn operands_distinct(gates: Seq<Gate>) -> bool {
    forall|i: int| 0 <= i < gates.len() ==> gate_operands_distinct(#[trigger] gates[i])
}

/// Every value of the table is a canonical field value.
pub open spec fn table_in_range(m: Seq<(Seq<char>, int)>) -> bool {
    forall|j: int| 0 <= j < m.len() ==> 0 <= #[trigger] m[j].1 < field_order()
}

/// One table preserves another: every defined name keeps its value.
pub open spec fn table_preserves(m1: Seq<(Seq<char>, int)>, m2: Seq<(Seq<char>, int)>) -> bool {
    forall|n: Seq<char>|
        #[trigger] table_lookup(m1, n) is Some ==> table_lookup(m2, n) == table_lookup(m1, n)
}

// ---------------------------------------------------------------------
// Facts about tables
// ---------------------------------------------------------------------

/// What the first-entry position means.
proof fn lemma_key_pos_from_spec(s: Seq<(Seq<char>, int)>, k: Seq<char>, i: int)
    requires
        0 <= i <= s.len(),
    ensures
        ({
            let p = key_pos_from(s, k, i);
            &&& i <= p <= s.len()
            &&& (p < s.len() ==> s[p].0 == k)
            &&& forall|j: int| i <= j < p ==> s[j].0 != k
        }),
    decreases s.len() - i,
{
    if i < s.len() && s[i].0 != k {
        lemma_key_pos_from_spec(s, k, i + 1);
    }
}

/// Two tables with the same keys place every name at the same position.
proof fn lemma_key_pos_from_same_keys(
    s1: Seq<(Seq<char>, int)>,
    s2: Seq<(Seq<char>, int)>,
    k: Seq<char>,
    i: int,
)
    requires
        0 <= i <= s1.len(),
        s1.len() == s2.len(),
        forall|j: int| 0 <= j < s1.len() ==> s1[j].0 == #[trigger] s2[j].0,
    ensures
        key_pos_from(s1, k, i) == key_pos_from(s2, k, i),
    decreases s1.len() - i,
{
    if i < s1.len() && s1[i].0 != k {
        lemma_key_pos_from_same_keys(s1, s2, k, i + 1);
    }
}

/// Appending an entry does not move a name that is present.
proof fn lemma_key_pos_from_push(
    s: Seq<(Seq<char>, int)>,
    k: Seq<char>,
    e: (Seq<char>, int),
    i: int,
)
    requires
        0 <= i <= s.len(),
        key_pos_from(s, k, i) < s.len(),
    ensures
        key_pos_from(s.push(e), k, i) == key_pos_from(s, k, i),
    decreases s.len() - i,
{
    assert(s.push(e)[i] == s[i]);
    if i < s.len() && s[i].0 != k {
        lemma_key_pos_from_push(s, k, e, i + 1);
    }
}

/// An absent name lands right where the push that binds it sits.
proof fn lemma_key_pos_from_push_absent(
    s: Seq<(Seq<char>, int)>,
    k: Seq<char>,
    e: (Seq<char>, int),
    i: int,
)
    requires
        0 <= i <= s.len(),
        key_pos_from(s, k, i) == s.len(),
    ensures
        key_pos_from(s.push(e), k, i) == if e.0 == k {
            s.len() as int
        } else {
            s.len() + 1int
        },
    decreases s.len() - i,
{
    lemma_key_pos_from_spec(s, k, i);
    if i < s.len() {
        assert(s.push(e)[i] == s[i]);
        lemma_key_pos_from_push_absent(s, k, e, i + 1);
    } else {
        assert(s.push(e)[i] == e);
        if e.0 != k {
            assert(key_pos_from(s.push(e), k, i + 1) == s.len() + 1);
        }
    }
}

/// What an insert does to every later lookup.
pub proof fn lemma_table_insert_lookup(
    s: Seq<(Seq<char>, int)>,
    k: Seq<char>,
    v: int,
    n: Seq<char>,
)
    ensures
        table_lookup(table_insert(s, k, v), n) == if n == k {
            Some(v)
        } else {
            table_lookup(s, n)
        },
{
    lemma_key_pos_from_spec(s, k, 0);
    lemma_key_pos_from_spec(s, n, 0);
    let s2 = table_insert(s, k, v);
    if key_pos(s, k) < s.len() {
        let p = key_pos(s, k);
        assert(s2 == s.update(p, (k, v)));
        assert(forall|j: int| 0 <= j < s.len() ==> s[j].0 == #[trigger] s2[j].0);
        lemma_key_pos_from_same_keys(s, s2, n, 0);
        lemma_key_pos_from_spec(s2, n, 0);
        if n == k {
            assert(key_pos(s2, n) == p);
        }
    } else {
        assert(s2 == s.push((k, v)));
        if key_pos(s, n) < s.len() {
            lemma_key_pos_from_push(s, n, (k, v), 0);
        } else {
            lemma_key_pos_from_push_absent(s, n, (k, v), 0);
            lemma_key_pos_from_spec(s2, n, 0);
        }
    }
}

/// Inserting a canonical value keeps the table canonical.
proof fn lemma_table_insert_in_range(s: Seq<(Seq<char>, int)>, k: Seq<char>, v: int)
    requires
        table_in_range(s),
        0 <= v < field_order(),
    ensures
        table_in_range(table_insert(s, k, v)),
{
    lemma_key_pos_from_spec(s, k, 0);
    let s2 = table_insert(s, k, v);
    assert forall|j: int| 0 <= j < s2.len() implies 0 <= #[trigger] s2[j].1 < field_order() by {
        if key_pos(s, k) < s.len() {
            if j != key_pos(s, k) {
                assert(s2[j] == s[j]);
            }
        } else {
            if j < s.len() {
                assert(s2[j] == s[j]);
            }
        }
    }
}

// ---------------------------------------------------------------------
// Preservation through the run
// ---------------------------------------------------------------------

/// One gate keeps every defined name at its value and keeps the table
/// canonical.
proof fn lemma_eval_gate_preserves(m: Seq<(Seq<char>, int)>, g: Gate, m2: Seq<(Seq<char>, int)>)
    requires
        eval_gate(m, g) == Ok::<Seq<(Seq<char>, int)>, SpecWitErr>(m2),
        gate_writes_fresh(m, g),
        table_in_range(m),
    ensures
        table_preserves(m, m2),
        table_in_range(m2),
{
    let p = field_order();
    match g {
        Gate::Add(a, b, c, _w) => {
            let va = table_lookup(m, a@)->Some_0;
            let vb = table_lookup(m, b@)->Some_0;
            lemma_mod_bound(va + vb, p);
            lemma_table_insert_in_range(m, c@, (va + vb) % p);
            assert forall|n: Seq<char>|
                #[trigger] table_lookup(m, n) is Some implies table_lookup(m2, n) == table_lookup(
                m,
                n,
            ) by {
                lemma_table_insert_lookup(m, c@, (va + vb) % p, n);
            }
        },
        Gate::Mul(a, b, c, _w) => {
            let va = table_lookup(m, a@)->Some_0;
            let vb = table_lookup(m, b@)->Some_0;
            lemma_mod_bound(va * vb, p);
            lemma_table_insert_in_range(m, c@, (va * vb) % p);
            assert forall|n: Seq<char>|
                #[trigger] table_lookup(m, n) is Some implies table_lookup(m2, n) == table_lookup(
                m,
                n,
            ) by {
                lemma_table_insert_lookup(m, c@, (va * vb) % p, n);
            }
        },
        Gate::Sub(a, b, c, _w) => {
            let va = table_lookup(m, a@)->Some_0;
            let vb = table_lookup(m, b@)->Some_0;
            lemma_mod_bound(va - vb, p);
            lemma_table_insert_in_range(m, c@, (va - vb) % p);
            assert forall|n: Seq<char>|
                #[trigger] table_lookup(m, n) is Some implies table_lookup(m2, n) == table_lookup(
                m,
                n,
            ) by {
                lemma_table_insert_lookup(m, c@, (va - vb) % p, n);
            }
        },
        Gate::Eq(_a, _b, out) => {
            lemma_table_insert_in_range(m, out@, 0);
            assert forall|n: Seq<char>|
                #[trigger] table_lookup(m, n) is Some implies table_lookup(m2, n) == table_lookup(
                m,
                n,
            ) by {
                lemma_table_insert_lookup(m, out@, 0, n);
            }
        },
        Gate::Hash(input, output) => {
            let vi = table_lookup(m, input@)->Some_0;
            lemma_mod_bound(vi * 7, p);
            lemma_table_insert_in_range(m, output@, (vi * 7) % p);
            assert forall|n: Seq<char>|
                #[trigger] table_lookup(m, n) is Some implies table_lookup(m2, n) == table_lookup(
                m,
                n,
            ) by {
                lemma_table_insert_lookup(m, output@, (vi * 7) % p, n);
            }
        },
        Gate::Const(name, val) => {
            lemma_table_insert_in_range(m, name@, spec_i32_to_field(val as int));
            assert forall|n: Seq<char>|
                #[trigger] table_lookup(m, n) is Some implies table_lookup(m2, n) == table_lookup(
                m,
                n,
            ) by {
                lemma_table_insert_lookup(m, name@, spec_i32_to_field(val as int), n);
            }
        },
        Gate::Xor(a, b, c) => {
            let prod = a@ + "_xor_prod_"@ + b@;
            let va = table_lookup(m, a@)->Some_0;
            let vb = table_lookup(m, b@)->Some_0;
            let vab = (va * vb) % p;
            let vc = ((va + vb) % p - (2 * vab) % p) % p;
            let m1 = table_insert(m, prod, vab);
            lemma_mod_bound(va * vb, p);
            lemma_mod_bound((va + vb) % p - (2 * vab) % p, p);
            lemma_table_insert_in_range(m, prod, vab);
            lemma_table_insert_in_range(m1, c@, vc);
            assert forall|n: Seq<char>|
                #[trigger] table_lookup(m, n) is Some implies table_lookup(m2, n) == table_lookup(
                m,
                n,
            ) by {
                lemma_table_insert_lookup(m, prod, vab, n);
                lemma_table_insert_lookup(m1, c@, vc, n);
            }
        },
    }
}

/// The whole remaining run keeps every defined name at its value and
/// keeps the table canonical.
proof fn lemma_eval_from_preserves(
    m: Seq<(Seq<char>, int)>,
    gates: Seq<Gate>,
    i: int,
    m_fin: Seq<(Seq<char>, int)>,
)
    requires
        eval_gates_from(m, gates, i) == Ok::<Seq<(Seq<char>, int)>, SpecWitErr>(m_fin),
        run_write_once(m, gates, i),
        table_in_range(m),
    ensures
        table_preserves(m, m_fin),
        table_in_range(m_fin),
    decreases gates.len() - i,
{
    if i < 0 || i >= gates.len() {
    } else {
        let m2 = eval_gate(m, gates[i])->Ok_0;
        lemma_eval_gate_preserves(m, gates[i], m2);
        lemma_eval_from_preserves(m2, gates, i + 1, m_fin);
    }
}

// ---------------------------------------------------------------------
// Projection and prefix facts
// ---------------------------------------------------------------------

/// What a successful projection contains: the accumulator, then the value
/// of each remaining variable in order.
proof fn lemma_project_from_spec(
    m: Seq<(Seq<char>, int)>,
    names: Seq<Seq<char>>,
    i: int,
    acc: Seq<int>,
    z: Seq<int>,
)
    requires
        0 <= i <= names.len(),
        project_from(m, names, i, acc) == Ok::<Seq<int>, SpecWitErr>(z),
    ensures
        z.len() == acc.len() + names.len() - i,
        forall|j: int| 0 <= j < acc.len() ==> z[j] == acc[j],
        forall|j: int|
            i <= j < names.len() ==> table_lookup(m, #[trigger] names[j]) == Some(
                z[acc.len() + (j - i)],
            ),
    decreases names.len() - i,
{
    if i < names.len() {
        let v = table_lookup(m, names[i])->Some_0;
        lemma_project_from_spec(m, names, i + 1, acc.push(v), z);
    }
}

/// Allocation keeps earlier names in place and puts the demanded name at
/// its reported position.
proof fn lemma_alloc_prefix(s: Seq<Seq<char>>, k: Seq<char>)
    ensures
        ({
            let s2 = spec_alloc(s, k);
            &&& s.len() <= s2.len()
            &&& forall|j: int| 0 <= j < s.len() ==> s2[j] == s[j]
            &&& 0 <= name_pos(s, k) < s2.len()
            &&& s2[name_pos(s, k)] == k
        }),
{
    crate::laws::lemma_name_pos_from_spec(s, k, 0);
    let s2 = spec_alloc(s, k);
    if name_pos(s, k) == s.len() {
        assert(s2 == s.push(k));
    }
}

/// One gate only appends names and constraints.
proof fn lemma_gate_step_prefix(st: CompState, g: Gate)
    ensures
        ({
            let st2 = gate_step(st, g);
            &&& st.names.len() <= st2.names.len()
            &&& forall|j: int| 0 <= j < st.names.len() ==> st2.names[j] == st.names[j]
            &&& st.cons.len() <= st2.cons.len()
            &&& forall|j: int| 0 <= j < st.cons.len() ==> st2.cons[j] == st.cons[j]
        }),
{
    match g {
        Gate::Add(a, b, c, _w) => {
            lemma_alloc_prefix(st.names, a@);
            lemma_alloc_prefix(spec_alloc(st.names, a@), b@);
            lemma_alloc_prefix(spec_alloc(spec_alloc(st.names, a@), b@), c@);
        },
        Gate::Mul(a, b, c, _w) => {
            lemma_alloc_prefix(st.names, a@);
            lemma_alloc_prefix(spec_alloc(st.names, a@), b@);
            lemma_alloc_prefix(spec_alloc(spec_alloc(st.names, a@), b@), c@);
        },
        Gate::Sub(a, b, c, _w) => {
            lemma_alloc_prefix(st.names, a@);
            lemma_alloc_prefix(spec_alloc(st.names, a@), b@);
            lemma_alloc_prefix(spec_alloc(spec_alloc(st.names, a@), b@), c@);
        },
        Gate::Eq(a, b, out) => {
            lemma_alloc_prefix(st.names, a@);
            lemma_alloc_prefix(spec_alloc(st.names, a@), b@);
            lemma_alloc_prefix(spec_alloc(spec_alloc(st.names, a@), b@), out@);
        },
        Gate::Hash(input, output) => {
            lemma_alloc_prefix(st.names, input@);
            lemma_alloc_prefix(spec_alloc(st.names, input@), output@);
        },
        Gate::Const(name, _v) => {
            lemma_alloc_prefix(st.names, name@);
        },
        Gate::Xor(a, b, c) => {
            let prod = a@ + "_xor_prod_"@ + b@;
            lemma_alloc_prefix(st.names, a@);
            lemma_alloc_prefix(spec_alloc(st.names, a@), b@);
            lemma_alloc_prefix(spec_alloc(spec_alloc(st.names, a@), b@), prod);
            lemma_alloc_prefix(spec_alloc(spec_alloc(spec_alloc(st.names, a@), b@), prod), c@);
        },
    }
}

/// The whole remaining fold only appends names and constraints.
proof fn lemma_comp_from_prefix(st: CompState, gates: Seq<Gate>, i: int)
    ensures
        ({
            let st2 = comp_from(st, gates, i);
            &&& st.names.len() <= st2.names.len()
            &&& forall|j: int| 0 <= j < st.names.len() ==> st2.names[j] == st.names[j]
            &&& st.cons.len() <= st2.cons.len()
            &&& forall|j: int| 0 <= j < st.cons.len() ==> st2.cons[j] == st.cons[j]
        }),
    decreases gates.len() - i,
{
    if 0 <= i < gates.len() {
        lemma_gate_step_prefix(st, gates[i]);
        lemma_comp_from_prefix(gate_step(st, gates[i]), gates, i + 1);
    }
}

// ---------------------------------------------------------------------
// Small linear combinations
// ---------------------------------------------------------------------

/// The value of a one-term combination.
proof fn lemma_lc_sum1(i: int, v: int, z: Seq<int>)
    ensures
        lc_sum(seq![(i, v)], z) == v * z[i],
{
    let s = seq![(i, v)];
    assert(s.len() == 1 && s.last() == (i, v));
    assert(s.drop_last() =~= Seq::<(int, int)>::empty());
    assert(lc_sum(s.drop_last(), z) == 0);
}

/// The value of a two-term combination.
proof fn lemma_lc_sum2(i1: int, v1: int, i2: int, v2: int, z: Seq<int>)
    ensures
        lc_sum(seq![(i1, v1), (i2, v2)], z) == v1 * z[i1] + v2 * z[i2],
{
    let s = seq![(i1, v1), (i2, v2)];
    assert(s.len() == 2 && s.last() == (i2, v2));
    assert(s.drop_last() =~= seq![(i1, v1)]);
    lemma_lc_sum1(i1, v1, z);
}

/// The value of a three-term combination.
proof fn lemma_lc_sum3(i1: int, v1: int, i2: int, v2: int, i3: int, v3: int, z: Seq<int>)
    ensures
        lc_sum(seq![(i1, v1), (i2, v2), (i3, v3)], z) == v1 * z[i1] + v2 * z[i2] + v3 * z[i3],
{
    let s = seq![(i1, v1), (i2, v2), (i3, v3)];
    assert(s.len() == 3 && s.last() == (i3, v3));
    assert(s.drop_last() =~= seq![(i1, v1), (i2, v2)]);
    lemma_lc_sum2(i1, v1, i2, v2, z);
}

/// Two coefficient inserts into an empty combination over distinct
/// indices give the two-term combination.
proof fn lemma_lc_build2(i1: int, v1: int, i2: int, v2: int)
    requires
        i1 != i2,
    ensures
        spec_lc_insert(spec_lc_insert(seq![], i1, v1), i2, v2) == seq![(i1, v1), (i2, v2)],
{
    assert(term_pos_from(seq![], i1, 0) == 0) by {
        assert(Seq::<(int, int)>::empty().len() == 0);
    }
    assert(spec_lc_insert(seq![], i1, v1) =~= seq![(i1, v1)]);
    assert(term_pos_from(seq![(i1, v1)], i2, 1) == 1);
    assert(term_pos_from(seq![(i1, v1)], i2, 0) == 1);
    assert(spec_lc_insert(seq![(i1, v1)], i2, v2) =~= seq![(i1, v1), (i2, v2)]);
}

/// Three coefficient inserts into an empty combination over pairwise
/// distinct indices give the three-term combination.
proof fn lemma_lc_build3(i1: int, v1: int, i2: int, v2: int, i3: int, v3: int)
    requires
        i1 != i2,
        i1 != i3,
        i2 != i3,
    ensures
        spec_lc_insert(spec_lc_insert(spec_lc_insert(seq![], i1, v1), i2, v2), i3, v3) == seq![
            (i1, v1),
            (i2, v2),
            (i3, v3),
        ],
{
    lemma_lc_build2(i1, v1, i2, v2);
    assert(term_pos_from(seq![(i1, v1), (i2, v2)], i3, 2) == 2);
    assert(term_pos_from(seq![(i1, v1), (i2, v2)], i3, 1) == 2);
    assert(term_pos_from(seq![(i1, v1), (i2, v2)], i3, 0) == 2);
    assert(spec_lc_insert(seq![(i1, v1), (i2, v2)], i3, v3) =~= seq![
        (i1, v1),
        (i2, v2),
        (i3, v3),
    ]);
}

// ---------------------------------------------------------------------
// One gate's constraints are satisfied
// ---------------------------------------------------------------------

/// The constraints a single gate emits are satisfied by the final
/// assignment vector, because the later gates leave every wire this
/// gate reads or writes at its value.
#[verifier::rlimit(80)]
proof fn lemma_gate_cons_satisfied(
    st: CompState,
    m: Seq<(Seq<char>, int)>,
    g: Gate,
    m2: Seq<(Seq<char>, int)>,
    names_fin: Seq<Seq<char>>,
    m_fin: Seq<(Seq<char>, int)>,
    z: Seq<int>,
)
    requires
        comp_ok(st),
        table_in_range(m),
        table_lookup(m, "1"@) == Some(1int),
        eval_gate(m, g) == Ok::<Seq<(Seq<char>, int)>, SpecWitErr>(m2),
        gate_writes_fresh(m, g),
        gate_operands_distinct(g),
        table_preserves(m, m_fin),
        table_preserves(m2, m_fin),
        names_fin.len() >= gate_step(st, g).names.len(),
        forall|j: int|
            0 <= j < gate_step(st, g).names.len() ==> names_fin[j] == gate_step(st, g).names[j],
        z.len() == names_fin.len(),
        forall|idx: int|
            0 <= idx < z.len() ==> table_lookup(m_fin, #[trigger] names_fin[idx]) == Some(z[idx]),
    ensures
        forall|j: int|
            st.cons.len() <= j < gate_step(st, g).cons.len() ==> constraint_satisfied(
                #[trigger] gate_step(st, g).cons[j],
                z,
            ),
{
    let p = field_order();
    lemma_gate_step_prefix(st, g);
    assert(names_fin[0] == "1"@);
    assert(table_lookup(m_fin, "1"@) == Some(1int));
    assert(z[0] == 1);
    match g {
        Gate::Add(a, b, c, _w) => {
            let va = table_lookup(m, a@)->Some_0;
            let vb = table_lookup(m, b@)->Some_0;
            let n1 = spec_alloc(st.names, a@);
            let n2 = spec_alloc(n1, b@);
            let ia = name_pos(st.names, a@);
            let ib = name_pos(n1, b@);
            let ic = name_pos(n2, c@);
            lemma_alloc_prefix(st.names, a@);
            lemma_alloc_prefix(n1, b@);
            lemma_alloc_prefix(n2, c@);
            assert(names_fin[ia] == a@ && names_fin[ib] == b@ && names_fin[ic] == c@);
            assert(z[ia] == va && z[ib] == vb);
            lemma_table_insert_lookup(m, c@, (va + vb) % p, c@);
            assert(z[ic] == (va + vb) % p);
            assert(ia != ib);
            lemma_lc_build2(ia, 1, ib, 1);
            lemma_lc_sum2(ia, 1, ib, 1, z);
            lemma_lc_sum1(0, 1, z);
            lemma_lc_sum1(ic, 1, z);
            let con = gate_step(st, g).cons.last();
            assert(con.a == seq![(ia, 1int), (ib, 1int)]);
            assert(con.b == seq![(0int, 1int)]);
            assert(con.c == seq![(ic, 1int)]);
            assert(lc_sum(con.a, z) == va + vb);
            assert(lc_sum(con.b, z) == 1);
            assert(lc_sum(con.c, z) == (va + vb) % p);
            lemma_mod_twice(va + vb, p);
            assert(lc_sum(con.a, z) * lc_sum(con.b, z) == va + vb) by (nonlinear_arith)
                requires
                    lc_sum(con.a, z) == va + vb,
                    lc_sum(con.b, z) == 1,
            ;
            assert(constraint_satisfied(con, z));
            assert forall|j: int|
                st.cons.len() <= j < gate_step(st, g).cons.len() implies constraint_satisfied(
                #[trigger] gate_step(st, g).cons[j],
                z,
            ) by {
                assert(gate_step(st, g).cons[j] == con);
            }
        },
        Gate::Mul(a, b, c, _w) => {
            let va = table_lookup(m, a@)->Some_0;
            let vb = table_lookup(m, b@)->Some_0;
            let n1 = spec_alloc(st.names, a@);
            let n2 = spec_alloc(n1, b@);
            let ia = name_pos(st.names, a@);
            let ib = name_pos(n1, b@);
            let ic = name_pos(n2, c@);
            lemma_alloc_prefix(st.names, a@);
            lemma_alloc_prefix(n1, b@);
            lemma_alloc_prefix(n2, c@);
            assert(names_fin[ia] == a@ && names_fin[ib] == b@ && names_fin[ic] == c@);
            assert(z[ia] == va && z[ib] == vb);
            lemma_table_insert_lookup(m, c@, (va * vb) % p, c@);
            assert(z[ic] == (va * vb) % p);
            let con = gate_step(st, g).cons.last();
            assert(con.a == seq![(ia, 1int)]);
            assert(con.b == seq![(ib, 1int)]);
            assert(con.c == seq![(ic, 1int)]);
            lemma_lc_sum1(ia, 1, z);
            lemma_lc_sum1(ib, 1, z);
            lemma_lc_sum1(ic, 1, z);
            assert(lc_sum(con.a, z) == va);
            assert(lc_sum(con.b, z) == vb);
            assert(lc_sum(con.c, z) == (va * vb) % p);
            lemma_mod_twice(va * vb, p);
            assert(constraint_satisfied(con, z));
            assert forall|j: int|
                st.cons.len() <= j < gate_step(st, g).cons.len() implies constraint_satisfied(
                #[trigger] gate_step(st, g).cons[j],
                z,
            ) by {
                assert(gate_step(st, g).cons[j] == con);
            }
        },
        Gate::Sub(a, b, c, _w) => {
            let va = table_lookup(m, a@)->Some_0;
            let vb = table_lookup(m, b@)->Some_0;
            let n1 = spec_alloc(st.names, a@);
            let n2 = spec_alloc(n1, b@);
            let ia = name_pos(st.names, a@);
            let ib = name_pos(n1, b@);
            let ic = name_pos(n2, c@);
            lemma_alloc_prefix(st.names, a@);
            lemma_alloc_prefix(n1, b@);
            lemma_alloc_prefix(n2, c@);
            assert(names_fin[ia] == a@ && names_fin[ib] == b@ && names_fin[ic] == c@);
            assert(z[ia] == va && z[ib] == vb);
            lemma_table_insert_lookup(m, c@, (va - vb) % p, c@);
            assert(z[ic] == (va - vb) % p);
            assert(ia != ib);
            lemma_lc_build2(ia, 1, ib, p - 1);
            lemma_lc_sum2(ia, 1, ib, p - 1, z);
            lemma_lc_sum1(0, 1, z);
            lemma_lc_sum1(ic, 1, z);
            let con = gate_step(st, g).cons.last();
            assert(con.a == seq![(ia, 1int), (ib, p - 1)]);
            assert(con.b == seq![(0int, 1int)]);
            assert(con.c == seq![(ic, 1int)]);
            assert(lc_sum(con.a, z) == va + (p - 1) * vb);
            assert(lc_sum(con.b, z) == 1);
            assert(lc_sum(con.c, z) == (va - vb) % p);
            assert(va + (p - 1) * vb == p * vb + (va - vb)) by (nonlinear_arith);
            lemma_mod_multiples_vanish(vb, va - vb, p);
            lemma_mod_twice(va - vb, p);
            assert(lc_sum(con.a, z) * lc_sum(con.b, z) == va + (p - 1) * vb) by (nonlinear_arith)
                requires
                    lc_sum(con.a, z) == va + (p - 1) * vb,
                    lc_sum(con.b, z) == 1,
            ;
            assert(constraint_satisfied(con, z));
            assert forall|j: int|
                st.cons.len() <= j < gate_step(st, g).cons.len() implies constraint_satisfied(
                #[trigger] gate_step(st, g).cons[j],
                z,
            ) by {
                assert(gate_step(st, g).cons[j] == con);
            }
        },
        Gate::Eq(a, b, out) => {
            let va = table_lookup(m, a@)->Some_0;
            let vb = table_lookup(m, b@)->Some_0;
            assert(va == vb);
            let n1 = spec_alloc(st.names, a@);
            let n2 = spec_alloc(n1, b@);
            let ia = name_pos(st.names, a@);
            let ib = name_pos(n1, b@);
            let io = name_pos(n2, out@);
            lemma_alloc_prefix(st.names, a@);
            lemma_alloc_prefix(n1, b@);
            lemma_alloc_prefix(n2, out@);
            assert(names_fin[ia] == a@ && names_fin[ib] == b@ && names_fin[io] == out@);
            assert(z[ia] == va && z[ib] == vb);
            lemma_table_insert_lookup(m, out@, 0, out@);
            assert(z[io] == 0);
            assert(ia != ib);
            lemma_lc_build2(ia, 1, ib, p - 1);
            lemma_lc_sum2(ia, 1, ib, p - 1, z);
            lemma_lc_sum1(0, 1, z);
            lemma_lc_sum1(io, 1, z);
            lemma_lc_sum1(0, 0, z);
            let con1 = gate_step(st, g).cons[st.cons.len() as int];
            let con2 = gate_step(st, g).cons[st.cons.len() as int + 1];
            assert(con1.a == seq![(ia, 1int), (ib, p - 1)]);
            assert(con1.b == seq![(0int, 1int)]);
            assert(con1.c == seq![(io, 1int)]);
            assert(con2.a == seq![(io, 1int)]);
            assert(con2.b == seq![(io, 1int)]);
            assert(con2.c == seq![(0int, 0int)]);
            assert(lc_sum(con1.a, z) == va + (p - 1) * vb);
            assert(lc_sum(con1.b, z) == 1);
            assert(lc_sum(con1.c, z) == 0);
            assert(lc_sum(con2.a, z) == 0 && lc_sum(con2.b, z) == 0 && lc_sum(con2.c, z) == 0);
            assert(va + (p - 1) * vb == p * vb) by (nonlinear_arith)
                requires
                    va == vb,
            ;
            lemma_mod_multiples_vanish(vb, 0, p);
            lemma_small_mod(0nat, p as nat);
            assert(lc_sum(con1.a, z) * lc_sum(con1.b, z) == va + (p - 1) * vb) by (nonlinear_arith)
                requires
                    lc_sum(con1.a, z) == va + (p - 1) * vb,
                    lc_sum(con1.b, z) == 1,
            ;
            assert(constraint_satisfied(con1, z));
            assert(lc_sum(con2.a, z) * lc_sum(con2.b, z) == 0) by (nonlinear_arith)
                requires
                    lc_sum(con2.a, z) == 0,
            ;
            assert(constraint_satisfied(con2, z));
            assert forall|j: int|
                st.cons.len() <= j < gate_step(st, g).cons.len() implies constraint_satisfied(
                #[trigger] gate_step(st, g).cons[j],
                z,
            ) by {
                assert(j == st.cons.len() || j == st.cons.len() + 1);
                assert(gate_step(st, g).cons[st.cons.len() as int] == con1);
                assert(gate_step(st, g).cons[st.cons.len() as int + 1] == con2);
            }
        },
        Gate::Hash(input, output) => {
            let vi = table_lookup(m, input@)->Some_0;
            let n1 = spec_alloc(st.names, input@);
            let ii = name_pos(st.names, input@);
            let io = name_pos(n1, output@);
            lemma_alloc_prefix(st.names, input@);
            lemma_alloc_prefix(n1, output@);
            assert(names_fin[ii] == input@ && names_fin[io] == output@);
            assert(z[ii] == vi);
            lemma_table_insert_lookup(m, output@, (vi * 7) % p, output@);
            assert(z[io] == (vi * 7) % p);
            let con = gate_step(st, g).cons.last();
            assert(con.a == seq![(ii, 1int)]);
            assert(con.b == seq![(0int, 7int)]);
            assert(con.c == seq![(io, 1int)]);
            lemma_lc_sum1(ii, 1, z);
            lemma_lc_sum1(0, 7, z);
            lemma_lc_sum1(io, 1, z);
            assert(lc_sum(con.a, z) == vi);
            assert(lc_sum(con.b, z) == 7);
            assert(lc_sum(con.c, z) == (vi * 7) % p);
            lemma_mod_twice(vi * 7, p);
            assert(constraint_satisfied(con, z));
            assert forall|j: int|
                st.cons.len() <= j < gate_step(st, g).cons.len() implies constraint_satisfied(
                #[trigger] gate_step(st, g).cons[j],
                z,
            ) by {
                assert(gate_step(st, g).cons[j] == con);
            }
        },
        Gate::Const(name, val) => {
            let f = spec_i32_to_field(val as int);
            let idx = name_pos(st.names, name@);
            lemma_alloc_prefix(st.names, name@);
            assert(names_fin[idx] == name@);
            lemma_table_insert_lookup(m, name@, f, name@);
            assert(z[idx] == f);
            let con = gate_step(st, g).cons.last();
            assert(con.a == seq![(0int, f)]);
            assert(con.b == seq![(0int, 1int)]);
            assert(con.c == seq![(idx, 1int)]);
            lemma_lc_sum1(0, f, z);
            lemma_lc_sum1(0, 1, z);
            lemma_lc_sum1(idx, 1, z);
            assert(lc_sum(con.a, z) == f * z[0]);
            assert(f * z[0] == f) by (nonlinear_arith)
                requires
                    z[0] == 1,
            ;
            assert(lc_sum(con.b, z) == 1);
            assert(lc_sum(con.c, z) == 1 * z[idx]);
            assert(1 * z[idx] == f) by (nonlinear_arith)
                requires
                    z[idx] == f,
            ;
            assert(lc_sum(con.c, z) == f);
            assert(lc_sum(con.a, z) * lc_sum(con.b, z) == f) by (nonlinear_arith)
                requires
                    lc_sum(con.a, z) == f,
                    lc_sum(con.b, z) == 1,
            ;
            assert(constraint_satisfied(con, z));
            assert forall|j: int|
                st.cons.len() <= j < gate_step(st, g).cons.len() implies constraint_satisfied(
                #[trigger] gate_step(st, g).cons[j],
                z,
            ) by {
                assert(gate_step(st, g).cons[j] == con);
            }
        },
        Gate::Xor(a, b, c) => {
            lemma_xor_cons_satisfied(st, m, g, m2, names_fin, m_fin, z, a, b, c);
        },
    }
}

/// The four constraints of an xor gate are satisfied.
#[verifier::rlimit(80)]
proof fn lemma_xor_cons_satisfied(
    st: CompState,
    m: Seq<(Seq<char>, int)>,
    g: Gate,
    m2: Seq<(Seq<char>, int)>,
    names_fin: Seq<Seq<char>>,
    m_fin: Seq<(Seq<char>, int)>,
    z: Seq<int>,
    a: String,
    b: String,
    c: String,
)
    requires
        g == Gate::Xor(a, b, c),
        comp_ok(st),
        table_in_range(m),
        table_lookup(m, "1"@) == Some(1int),
        eval_gate(m, g) == Ok::<Seq<(Seq<char>, int)>, SpecWitErr>(m2),
        gate_writes_fresh(m, g),
        gate_operands_distinct(g),
        table_preserves(m, m_fin),
        table_preserves(m2, m_fin),
        names_fin.len() >= gate_step(st, g).names.len(),
        forall|j: int|
            0 <= j < gate_step(st, g).names.len() ==> names_fin[j] == gate_step(st, g).names[j],
        z.len() == names_fin.len(),
        forall|idx: int|
            0 <= idx < z.len() ==> table_lookup(m_fin, #[trigger] names_fin[idx]) == Some(z[idx]),
        names_fin[0] == "1"@,
        z[0] == 1,
    ensures
        forall|j: int|
            st.cons.len() <= j < gate_step(st, g).cons.len() ==> constraint_satisfied(
                #[trigger] gate_step(st, g).cons[j],
                z,
            ),
{
    let p = field_order();
    lemma_gate_step_prefix(st, g);
    let prod = a@ + "_xor_prod_"@ + b@;
    let va = table_lookup(m, a@)->Some_0;
    let vb = table_lookup(m, b@)->Some_0;
    let vab = (va * vb) % p;
    let vc = ((va + vb) % p - (2 * vab) % p) % p;
    let m1 = table_insert(m, prod, vab);
    let n1 = spec_alloc(st.names, a@);
    let n2 = spec_alloc(n1, b@);
    let n3 = spec_alloc(n2, prod);
    let ia = name_pos(st.names, a@);
    let ib = name_pos(n1, b@);
    let ip = name_pos(n2, prod);
    let ic = name_pos(n3, c@);
    lemma_alloc_prefix(st.names, a@);
    lemma_alloc_prefix(n1, b@);
    lemma_alloc_prefix(n2, prod);
    lemma_alloc_prefix(n3, c@);
    assert(names_fin[ia] == a@ && names_fin[ib] == b@ && names_fin[ip] == prod && names_fin[ic]
        == c@);
    assert(z[ia] == va && z[ib] == vb);
    lemma_table_insert_lookup(m, prod, vab, prod);
    lemma_table_insert_lookup(m1, c@, vc, prod);
    lemma_table_insert_lookup(m1, c@, vc, c@);
    assert(z[ip] == vab);
    assert(z[ic] == vc);
    reveal_strlit("_xor_prod_");
    assert(prod.len() == a@.len() + 10 + b@.len());
    assert(prod != a@ && prod != b@);
    assert(ia != ib && ip != ia && ip != ib);
    assert(is_boolean(va) && is_boolean(vb));
    let con1 = gate_step(st, g).cons[st.cons.len() as int];
    let con2 = gate_step(st, g).cons[st.cons.len() as int + 1];
    let con3 = gate_step(st, g).cons[st.cons.len() as int + 2];
    let con4 = gate_step(st, g).cons[st.cons.len() as int + 3];
    let la2 = spec_lc_insert(spec_lc_insert(spec_lc_insert(seq![], ia, 1), ib, 1), ip, p - 2);
    assert(con1.a == seq![(ia, 1int)]);
    assert(con1.b == seq![(ib, 1int)]);
    assert(con1.c == seq![(ip, 1int)]);
    assert(con2.a == la2);
    assert(con2.b == seq![(0int, 1int)]);
    assert(con2.c == seq![(ic, 1int)]);
    assert(con3.a == seq![(ia, 1int)] && con3.b == seq![(ia, 1int)] && con3.c == seq![
        (ia, 1int),
    ]);
    assert(con4.a == seq![(ib, 1int)] && con4.b == seq![(ib, 1int)] && con4.c == seq![
        (ib, 1int),
    ]);
    lemma_lc_sum1(ia, 1, z);
    lemma_lc_sum1(ib, 1, z);
    lemma_lc_sum1(ip, 1, z);
    lemma_lc_sum1(ic, 1, z);
    lemma_lc_sum1(0, 1, z);
    lemma_lc_build3(ia, 1, ib, 1, ip, p - 2);
    lemma_lc_sum3(ia, 1, ib, 1, ip, p - 2, z);
    assert(lc_sum(con1.a, z) == va && lc_sum(con1.b, z) == vb && lc_sum(con1.c, z) == vab);
    assert(lc_sum(con2.a, z) == va + vb + (p - 2) * vab);
    assert(lc_sum(con2.b, z) == 1);
    assert(lc_sum(con2.c, z) == vc);
    assert(constraint_satisfied(con1, z)) by {
        lemma_mod_twice(va * vb, p);
    }
    assert(lc_sum(con2.a, z) * lc_sum(con2.b, z) == va + vb + (p - 2) * vab) by (nonlinear_arith)
        requires
            lc_sum(con2.a, z) == va + vb + (p - 2) * vab,
            lc_sum(con2.b, z) == 1,
    ;
    assert(constraint_satisfied(con2, z)) by {
        assert(va + vb + (p - 2) * vab == p * vab + (va + vb - 2 * vab)) by (nonlinear_arith);
        lemma_mod_multiples_vanish(vab, va + vb - 2 * vab, p);
        lemma_sub_mod_noop(va + vb, 2 * vab, p);
        lemma_mod_twice(va + vb - 2 * vab, p);
        assert(vc == (va + vb - 2 * vab) % p);
    }
    assert(constraint_satisfied(con3, z)) by {
        lemma_small_mod(0nat, p as nat);
        lemma_small_mod(1nat, p as nat);
        assert(va == 0 || va == 1);
        assert((va * va) % p == va % p);
    }
    assert(constraint_satisfied(con4, z)) by {
        lemma_small_mod(0nat, p as nat);
        lemma_small_mod(1nat, p as nat);
        assert(vb == 0 || vb == 1);
        assert((vb * vb) % p == vb % p);
    }
    assert forall|j: int|
        st.cons.len() <= j < gate_step(st, g).cons.len() implies constraint_satisfied(
        #[trigger] gate_step(st, g).cons[j],
        z,
    ) by {
        assert(j == st.cons.len() || j == st.cons.len() + 1 || j == st.cons.len() + 2 || j
            == st.cons.len() + 3);
        assert(gate_step(st, g).cons[st.cons.len() as int] == con1);
        assert(gate_step(st, g).cons[st.cons.len() as int + 1] == con2);
        assert(gate_step(st, g).cons[st.cons.len() as int + 2] == con3);
        assert(gate_step(st, g).cons[st.cons.len() as int + 3] == con4);
    }
}

// ---------------------------------------------------------------------
// The whole run, and the preamble
// ---------------------------------------------------------------------

/// Every constraint the gates emit is satisfied by the final assignment.
proof fn lemma_gates_satisfy(
    st: CompState,
    m: Seq<(Seq<char>, int)>,
    gates: Seq<Gate>,
    i: int,
    m_fin: Seq<(Seq<char>, int)>,
    z: Seq<int>,
)
    requires
        0 <= i <= gates.len(),
        comp_ok(st),
        table_in_range(m),
        table_lookup(m, "1"@) == Some(1int),
        eval_gates_from(m, gates, i) == Ok::<Seq<(Seq<char>, int)>, SpecWitErr>(m_fin),
        run_write_once(m, gates, i),
        operands_distinct(gates),
        z.len() == comp_from(st, gates, i).names.len(),
        forall|idx: int|
            0 <= idx < z.len() ==> table_lookup(
                m_fin,
                #[trigger] comp_from(st, gates, i).names[idx],
            ) == Some(z[idx]),
    ensures
        forall|j: int|
            st.cons.len() <= j < comp_from(st, gates, i).cons.len() ==> constraint_satisfied(
                #[trigger] comp_from(st, gates, i).cons[j],
                z,
            ),
    decreases gates.len() - i,
{
    if i < gates.len() {
        let g = gates[i];
        let st2 = gate_step(st, g);
        let m2 = eval_gate(m, g)->Ok_0;
        crate::laws::lemma_gate_step_preserves(st, g);
        lemma_eval_gate_preserves(m, g, m2);
        assert(table_lookup(m2, "1"@) == Some(1int));
        lemma_eval_from_preserves(m, gates, i, m_fin);
        lemma_eval_from_preserves(m2, gates, i + 1, m_fin);
        lemma_comp_from_prefix(st2, gates, i + 1);
        assert(comp_from(st, gates, i) == comp_from(st2, gates, i + 1));
        lemma_gates_satisfy(st2, m2, gates, i + 1, m_fin, z);
        lemma_gate_cons_satisfied(st, m, g, m2, comp_from(st, gates, i).names, m_fin, z);
        assert forall|j: int|
            st.cons.len() <= j < comp_from(st, gates, i).cons.len() implies constraint_satisfied(
            #[trigger] comp_from(st, gates, i).cons[j],
            z,
        ) by {
            if j < st2.cons.len() {
                assert(comp_from(st, gates, i).cons[j] == st2.cons[j]);
            }
        }
    }
}

/// Appending to both sides of a concatenation cancels.
proof fn lemma_append_cancel(x: Seq<char>, y: Seq<char>, t: Seq<char>)
    requires
        x + t == y + t,
    ensures
        x == y,
{
    assert((x + t).len() == x.len() + t.len());
    assert((y + t).len() == y.len() + t.len());
    assert(x.len() == y.len());
    assert forall|j: int| 0 <= j < x.len() implies x[j] == y[j] by {
        assert((x + t)[j] == x[j]);
        assert((y + t)[j] == y[j]);
    }
    assert(x =~= y);
}

/// The last character of a concatenation with a nonempty suffix.
proof fn lemma_suffix_last(x: Seq<char>, t: Seq<char>)
    requires
        t.len() > 0,
    ensures
        (x + t).len() == x.len() + t.len(),
        (x + t)[x.len() + t.len() - 1] == t[t.len() - 1],
{
}

/// The seeded table is canonical, except that declared inputs larger than
/// 32 bits cannot arise.
proof fn lemma_seed_inputs_in_range(
    entries: Seq<(Seq<char>, int)>,
    i: int,
    acc: Seq<(Seq<char>, int)>,
)
    requires
        table_in_range(acc),
        forall|j: int| 0 <= j < entries.len() ==> i32::MIN <= #[trigger] entries[j].1 <= i32::MAX,
    ensures
        table_in_range(crate::witness::seed_inputs_from(entries, i, acc)),
    decreases entries.len() - i,
{
    if 0 <= i < entries.len() {
        lemma_table_insert_in_range(acc, entries[i].0, spec_i32_to_field(entries[i].1));
        lemma_seed_inputs_in_range(
            entries,
            i + 1,
            table_insert(acc, entries[i].0, spec_i32_to_field(entries[i].1)),
        );
    }
}

/// What the seed binds: every value canonical, the constant-one wire at
/// one, and each public preamble wire at its declared literal.
proof fn lemma_seed_facts(c: Circuit)
    ensures
        table_in_range(seed_values(c)),
        table_lookup(seed_values(c), "1"@) == Some(1int),
        table_lookup(c.inputs@, c.sender@) is Some ==> table_lookup(
            seed_values(c),
            c.sender@ + "_initial_balance"@,
        ) == Some(spec_i32_to_field(table_lookup(c.inputs@, c.sender@)->Some_0)),
        table_lookup(c.inputs@, c.receiver@) is Some ==> table_lookup(
            seed_values(c),
            c.receiver@ + "_initial_balance"@,
        ) == Some(spec_i32_to_field(table_lookup(c.inputs@, c.receiver@)->Some_0)),
        table_lookup(seed_values(c), "transfer_amount_public"@) == Some(
            spec_i32_to_field(c.transfer_amount as int),
        ),
{
    let p = field_order();
    reveal_strlit("1");
    reveal_strlit("_initial_balance");
    reveal_strlit("transfer_amount_public");
    let suffix = "_initial_balance"@;
    let one_name = "1"@;
    let tap = "transfer_amount_public"@;
    let s_init = c.sender@ + suffix;
    let r_init = c.receiver@ + suffix;
    lemma_suffix_last(c.sender@, suffix);
    lemma_suffix_last(c.receiver@, suffix);
    assert(one_name.len() == 1 && suffix.len() == 16 && tap.len() == 22);
    assert(s_init.len() == c.sender@.len() + 16);
    assert(r_init.len() == c.receiver@.len() + 16);
    assert(s_init != one_name && r_init != one_name && tap != one_name);
    assert(tap != s_init) by {
        if tap == s_init {
            assert(tap[21] == s_init[c.sender@.len() as int + 15]);
        }
    }
    assert(tap != r_init) by {
        if tap == r_init {
            assert(tap[21] == r_init[c.receiver@.len() as int + 15]);
        }
    }
    crate::wiremap::lemma_wiremap_values_i32(c.inputs);
    let m1 = crate::witness::seed_inputs_from(c.inputs@, 0, seq![]);
    assert(table_in_range(Seq::<(Seq<char>, int)>::empty()));
    lemma_seed_inputs_in_range(c.inputs@, 0, seq![]);
    let m2 = table_insert(m1, one_name, 1);
    lemma_table_insert_in_range(m1, one_name, 1);
    lemma_table_insert_lookup(m1, one_name, 1, one_name);
    let svs = table_lookup(c.inputs@, c.sender@);
    let rvs = table_lookup(c.inputs@, c.receiver@);
    if svs is Some {
        lemma_key_pos_from_spec(c.inputs@, c.sender@, 0);
    }
    if rvs is Some {
        lemma_key_pos_from_spec(c.inputs@, c.receiver@, 0);
    }
    let m3 = match svs {
        Some(bal) => table_insert(m2, s_init, spec_i32_to_field(bal)),
        None => m2,
    };
    match svs {
        Some(bal) => {
            lemma_table_insert_in_range(m2, s_init, spec_i32_to_field(bal));
            lemma_table_insert_lookup(m2, s_init, spec_i32_to_field(bal), s_init);
            lemma_table_insert_lookup(m2, s_init, spec_i32_to_field(bal), one_name);
        },
        None => {},
    }
    let m4 = match rvs {
        Some(bal) => table_insert(m3, r_init, spec_i32_to_field(bal)),
        None => m3,
    };
    match rvs {
        Some(bal) => {
            lemma_table_insert_in_range(m3, r_init, spec_i32_to_field(bal));
            lemma_table_insert_lookup(m3, r_init, spec_i32_to_field(bal), r_init);
            lemma_table_insert_lookup(m3, r_init, spec_i32_to_field(bal), one_name);
            lemma_table_insert_lookup(m3, r_init, spec_i32_to_field(bal), s_init);
            if r_init == s_init {
                lemma_append_cancel(c.receiver@, c.sender@, suffix);
                assert(c.sender@ == c.receiver@);
            }
        },
        None => {},
    }
    let amt = spec_i32_to_field(c.transfer_amount as int);
    lemma_table_insert_in_range(m4, tap, amt);
    lemma_table_insert_lookup(m4, tap, amt, tap);
    lemma_table_insert_lookup(m4, tap, amt, one_name);
    lemma_table_insert_lookup(m4, tap, amt, s_init);
    lemma_table_insert_lookup(m4, tap, amt, r_init);
    assert(seed_values(c) == table_insert(m4, tap, amt));
}

/// Binding a public input only appends a name and one constraint.
proof fn lemma_bind_prefix(st: CompState, name: Seq<char>, val: int)
    ensures
        ({
            let st2 = bind_public(st, name, val);
            &&& st.names.len() <= st2.names.len()
            &&& forall|j: int| 0 <= j < st.names.len() ==> st2.names[j] == st.names[j]
            &&& st2.cons.len() == st.cons.len() + 1
            &&& forall|j: int| 0 <= j < st.cons.len() ==> st2.cons[j] == st.cons[j]
            &&& 0 <= name_pos(st.names, name) < st2.names.len()
            &&& st2.names[name_pos(st.names, name)] == name
        }),
{
    lemma_alloc_prefix(st.names, name);
}

/// The constraint a public binding emits is satisfied when the final
/// table holds the bound name at the bound literal.
proof fn lemma_bind_satisfied(
    st: CompState,
    name: Seq<char>,
    val: int,
    names_fin: Seq<Seq<char>>,
    m_fin: Seq<(Seq<char>, int)>,
    z: Seq<int>,
)
    requires
        st.names.len() >= 1,
        st.names[0] == "1"@,
        names_fin.len() >= bind_public(st, name, val).names.len(),
        forall|j: int|
            0 <= j < bind_public(st, name, val).names.len() ==> names_fin[j] == bind_public(
                st,
                name,
                val,
            ).names[j],
        z.len() == names_fin.len(),
        forall|idx: int|
            0 <= idx < z.len() ==> table_lookup(m_fin, #[trigger] names_fin[idx]) == Some(z[idx]),
        table_lookup(m_fin, "1"@) == Some(1int),
        table_lookup(m_fin, name) == Some(val),
    ensures
        constraint_satisfied(bind_public(st, name, val).cons.last(), z),
{
    lemma_bind_prefix(st, name, val);
    let idx = name_pos(st.names, name);
    assert(names_fin[0] == "1"@);
    assert(z[0] == 1);
    assert(names_fin[idx] == name);
    assert(z[idx] == val);
    let con = bind_public(st, name, val).cons.last();
    assert(con.a == seq![(idx, 1int)]);
    assert(con.b == seq![(0int, 1int)]);
    assert(con.c == seq![(0int, val)]);
    lemma_lc_sum1(idx, 1, z);
    lemma_lc_sum1(0, 1, z);
    lemma_lc_sum1(0, val, z);
    assert(lc_sum(con.a, z) == val);
    assert(lc_sum(con.b, z) == 1);
    assert(lc_sum(con.c, z) == val * z[0]);
    assert(val * z[0] == val) by (nonlinear_arith)
        requires
            z[0] == 1,
    ;
    assert(lc_sum(con.a, z) * lc_sum(con.b, z) == val) by (nonlinear_arith)
        requires
            lc_sum(con.a, z) == val,
            lc_sum(con.b, z) == 1,
    ;
    assert(constraint_satisfied(con, z));
}

/// The preamble constraints are satisfied by the final assignment.
proof fn lemma_preamble_satisfied(c: Circuit, m_fin: Seq<(Seq<char>, int)>, z: Seq<int>)
    requires
        table_preserves(seed_values(c), m_fin),
        z.len() == comp_from(preamble_state(c), c.gates@, 0).names.len(),
        forall|idx: int|
            0 <= idx < z.len() ==> table_lookup(
                m_fin,
                #[trigger] comp_from(preamble_state(c), c.gates@, 0).names[idx],
            ) == Some(z[idx]),
    ensures
        forall|j: int|
            0 <= j < preamble_state(c).cons.len() ==> constraint_satisfied(
                #[trigger] preamble_state(c).cons[j],
                z,
            ),
{
    lemma_seed_facts(c);
    let suffix = "_initial_balance"@;
    let tap = "transfer_amount_public"@;
    let s_init = c.sender@ + suffix;
    let r_init = c.receiver@ + suffix;
    let st0 = crate::r1cs::initial_state();
    let svs = table_lookup(c.inputs@, c.sender@);
    let rvs = table_lookup(c.inputs@, c.receiver@);
    let st1 = match svs {
        Some(bal) => bind_public(st0, s_init, spec_i32_to_field(bal)),
        None => st0,
    };
    let st2 = match rvs {
        Some(bal) => bind_public(st1, r_init, spec_i32_to_field(bal)),
        None => st1,
    };
    let amt = spec_i32_to_field(c.transfer_amount as int);
    let st3 = bind_public(st2, tap, amt);
    assert(st3 == preamble_state(c));
    let names_fin = comp_from(preamble_state(c), c.gates@, 0).names;
    lemma_comp_from_prefix(preamble_state(c), c.gates@, 0);
    match svs {
        Some(bal) => {
            lemma_bind_prefix(st0, s_init, spec_i32_to_field(bal));
        },
        None => {},
    }
    match rvs {
        Some(bal) => {
            lemma_bind_prefix(st1, r_init, spec_i32_to_field(bal));
        },
        None => {},
    }
    lemma_bind_prefix(st2, tap, amt);
    assert(names_fin.len() >= st3.names.len());
    assert(forall|j: int| 0 <= j < st3.names.len() ==> names_fin[j] == st3.names[j]);
    match svs {
        Some(bal) => {
            assert(table_lookup(m_fin, s_init) == Some(spec_i32_to_field(bal)));
            lemma_bind_satisfied(st0, s_init, spec_i32_to_field(bal), names_fin, m_fin, z);
            assert(st3.cons[0] == st1.cons.last());
        },
        None => {},
    }
    match rvs {
        Some(bal) => {
            assert(table_lookup(m_fin, r_init) == Some(spec_i32_to_field(bal)));
            lemma_bind_satisfied(st1, r_init, spec_i32_to_field(bal), names_fin, m_fin, z);
            assert(st3.cons[st1.cons.len() as int] == st2.cons.last());
        },
        None => {},
    }
    assert(table_lookup(m_fin, tap) == Some(amt));
    lemma_bind_satisfied(st2, tap, amt, names_fin, m_fin, z);
    assert forall|j: int|
        0 <= j < preamble_state(c).cons.len() implies constraint_satisfied(
        #[trigger] preamble_state(c).cons[j],
        z,
    ) by {
        if j == st2.cons.len() {
            assert(preamble_state(c).cons[j] == st3.cons.last());
        } else if st1.cons.len() <= j < st2.cons.len() {
            assert(preamble_state(c).cons[j] == st2.cons.last());
        } else {
            assert(preamble_state(c).cons[j] == st1.cons.last());
        }
    }
}

// ---------------------------------------------------------------------
// The theorem
// ---------------------------------------------------------------------

/// The witness satisfies the constraints: whenever witness evaluation
/// succeeds on a circuit whose gates write only fresh wires and read
/// distinct wires where two are read, the assignment vector satisfies
/// every compiled constraint `(A.z) * (B.z) = C.z` in the field.
pub proof fn lemma_witness_satisfies_constraints(c: Circuit, z: Seq<int>)
    requires
        spec_compute_witness(c, spec_to_r1cs(c).names) == Ok::<Seq<int>, SpecWitErr>(z),
        run_write_once(seed_values(c), c.gates@, 0),
        operands_distinct(c.gates@),
    ensures
        z.len() == spec_to_r1cs(c).num_variables,
        forall|j: int|
            0 <= j < spec_to_r1cs(c).constraints.len() ==> constraint_satisfied(
                #[trigger] spec_to_r1cs(c).constraints[j],
                z,
            ),
{
    let seed = seed_values(c);
    let gates = c.gates@;
    let st0 = preamble_state(c);
    let fin = comp_from(st0, gates, 0);
    let m_fin = eval_gates_from(seed, gates, 0)->Ok_0;
    lemma_seed_facts(c);
    crate::laws::lemma_preamble_ok(c);
    lemma_project_from_spec(m_fin, fin.names, 0, seq![], z);
    lemma_eval_from_preserves(seed, gates, 0, m_fin);
    lemma_gates_satisfy(st0, seed, gates, 0, m_fin, z);
    lemma_preamble_satisfied(c, m_fin, z);
    lemma_comp_from_prefix(st0, gates, 0);
    assert forall|j: int|
        0 <= j < spec_to_r1cs(c).constraints.len() implies constraint_satisfied(
        #[trigger] spec_to_r1cs(c).constraints[j],
        z,
    ) by {
        if j < st0.cons.len() {
            assert(fin.cons[j] == st0.cons[j]);
        }
    }
}

/// The theorem read at the level of the library's functions: a system
/// compiled by `to_r1cs_system` and a witness `compute_witness` accepted
/// for it satisfy every constraint of the system.
pub proof fn lemma_computed_witness_satisfies(c: Circuit, r: R1CSSystem, w: Vec<Fe>)
    requires
        r@ == spec_to_r1cs(c),
        spec_compute_witness(c, r@.names) == Ok::<Seq<int>, SpecWitErr>(
            crate::witness::values_view(w@),
        ),
        run_write_once(seed_values(c), c.gates@, 0),
        operands_distinct(c.gates@),
    ensures
        forall|j: int|
            0 <= j < r@.constraints.len() ==> constraint_satisfied(
                #[trigger] r@.constraints[j],
                crate::witness::values_view(w@),
            ),
{
    lemma_witness_satisfies_constraints(c, crate::witness::values_view(w@));
}

} // verus!
