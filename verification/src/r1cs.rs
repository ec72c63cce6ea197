//! The R1CS compiler.
//!
//! [`Circuit::to_r1cs_system`] flattens a circuit into a rank-1 constraint
//! system: an ordered sequence of constraints `(A, B, C)`, each a sparse
//! linear combination over a shared variable vector, together with the
//! variable index map and the ordered public-input names. The whole
//! translation is specified by [`spec_to_r1cs`], a function of the circuit
//! alone, which is what makes compilation deterministic.

use vstd::prelude::*;
use vstd::string::StringExecFns;
use crate::field::{Fe, fe_value, field_order, spec_i32_to_field, i32_to_fr};
use crate::circuit::{Circuit, Gate};
use crate::wiremap::table_lookup;

verus! {

// ---------------------------------------------------------------------
// Sparse linear combinations
// ---------------------------------------------------------------------

/// The position of the first term over index `k`, at or after `i`;
/// the length of `s` when there is none.
pub open spec fn term_pos_from(s: Seq<(int, int)>, k: int, i: int) -> int
    decreases s.len() - i,
{
    if i < 0 || i >= s.len() {
        s.len() as int
    } else if s[i].0 == k {
        i
    } else {
        term_pos_from(s, k, i + 1)
    }
}

/// The position of the first term over index `k`, or the length of `s`.
pub open spec fn term_pos(s: Seq<(int, int)>, k: int) -> int {
    term_pos_from(s, k, 0)
}

/// `s` with the coefficient of index `k` set to `v`: the first term over
/// `k` is replaced, or a new term is appended. This mirrors how the
/// constraint builder collapses a repeated wire to a single term.
pub open spec fn spec_lc_insert(s: Seq<(int, int)>, k: int, v: int) -> Seq<(int, int)> {
    if term_pos(s, k) < s.len() {
        s.update(term_pos(s, k), (k, v))
    } else {
        s.push((k, v))
    }
}

/// The view of an executable sparse linear combination: each term is a
/// variable index and the value of its coefficient.
pub open spec fn lc_view(s: Seq<(usize, Fe)>) -> Seq<(int, int)> {
    s.map(|i: int, t: (usize, Fe)| (t.0 as int, fe_value(t.1)))
}

/// The (unreduced) value of `A . z` for an assignment vector `z`.
pub open spec fn lc_sum(s: Seq<(int, int)>, z: Seq<int>) -> int
    decreases s.len(),
{
    if s.len() == 0 {
        0
    } else {
        lc_sum(s.drop_last(), z) + s.last().1 * z[s.last().0]
    }
}

/// One rank-1 constraint, in the mathematical model.
#[verifier::ext_equal]
pub struct SpecConstraint {
    pub a: Seq<(int, int)>,
    pub b: Seq<(int, int)>,
    pub c: Seq<(int, int)>,
}

/// Whether `z` satisfies the constraint: `(A.z) * (B.z) = C.z` in the field.
pub open spec fn constraint_satisfied(con: SpecConstraint, z: Seq<int>) -> bool {
    (lc_sum(con.a, z) * lc_sum(con.b, z)) % field_order() == lc_sum(con.c, z) % field_order()
}

/// Every index referenced by the terms of `s` lies below `n`.
pub open spec fn lc_indices_below(s: Seq<(int, int)>, n: int) -> bool {
    forall|i: int| 0 <= i < s.len() ==> 0 <= #[trigger] s[i].0 < n
}

/// Every index referenced by the constraint lies below `n`.
pub open spec fn constraint_indices_below(con: SpecConstraint, n: int) -> bool {
    lc_indices_below(con.a, n) && lc_indices_below(con.b, n) && lc_indices_below(con.c, n)
}

// ---------------------------------------------------------------------
// The variable index map
// ---------------------------------------------------------------------

/// The position of the first occurrence of `k`, at or after `i`;
/// the length of `s` when there is none.
pub open spec fn name_pos_from(s: Seq<Seq<char>>, k: Seq<char>, i: int) -> int
    decreases s.len() - i,
{
    if i < 0 || i >= s.len() {
        s.len() as int
    } else if s[i] == k {
        i
    } else {
        name_pos_from(s, k, i + 1)
    }
}

/// The position of the first occurrence of `k`, or the length of `s`.
/// When `k` is absent this is also the index it would be allocated.
pub open spec fn name_pos(s: Seq<Seq<char>>, k: Seq<char>) -> int {
    name_pos_from(s, k, 0)
}

/// The name sequence after `k` is demanded: unchanged if present,
/// extended by `k` otherwise.
pub open spec fn spec_alloc(s: Seq<Seq<char>>, k: Seq<char>) -> Seq<Seq<char>> {
    if name_pos(s, k) < s.len() {
        s
    } else {
        s.push(k)
    }
}

/// The variable index map: the name with index `i` sits at position `i`,
/// so indices are contiguous from `0` and the constant-one wire `"1"`,
/// placed by the constructor, has index `0`.
pub struct VarMap {
    entries: Vec<String>,
}

impl View for VarMap {
    type V = Seq<Seq<char>>;

    closed spec fn view(&self) -> Seq<Seq<char>> {
        self.entries@.map(|i: int, s: String| s@)
    }
}

impl VarMap {
    /// A map holding only the constant-one wire.
    pub fn new() -> (r: VarMap)
        ensures
            r@ =~= seq!["1"@],
    {
        let mut entries: Vec<String> = Vec::new();
        entries.push(String::from_str("1"));
        VarMap { entries }
    }

    /// How many variables are allocated.
    pub fn len(&self) -> (r: usize)
        ensures
            r == self@.len(),
    {
        self.entries.len()
    }

    /// The name with index `i`.
    pub fn name_at(&self, i: usize) -> (r: &String)
        requires
            i < self@.len(),
        ensures
            r@ == self@[i as int],
    {
        &self.entries[i]
    }

    /// The index of `name`, if allocated.
    pub fn get(&self, name: &String) -> (r: Option<usize>)
        ensures
            match r {
                Some(i) => name_pos(self@, name@) == i as int && i < self@.len(),
                None => name_pos(self@, name@) == self@.len(),
            },
    {
        let n = self.entries.len();
        let mut i: usize = 0;
        while i < n
            invariant
                n == self@.len(),
                0 <= i <= n,
                name_pos(self@, name@) == name_pos_from(self@, name@, i as int),
            decreases n - i,
        {
            proof {
                assert(self@[i as int] == self.entries@[i as int]@);
            }
            if self.entries[i] == *name {
                proof {
                    assert(name_pos_from(self@, name@, i as int) == i as int);
                }
                return Some(i);
            }
            proof {
                assert(name_pos_from(self@, name@, i as int) == name_pos_from(
                    self@,
                    name@,
                    i as int + 1,
                ));
            }
            i += 1;
        }
        None
    }

    /// Whether `name` is allocated.
    pub fn contains_key(&self, name: &String) -> (r: bool)
        ensures
            r == (name_pos(self@, name@) < self@.len()),
    {
        self.get(name).is_some()
    }

    /// The index of `name`, allocating the next free index if it is new.
    pub fn get_index(&mut self, name: &String) -> (idx: usize)
        ensures
            final(self)@ == spec_alloc(old(self)@, name@),
            idx as int == name_pos(old(self)@, name@),
            idx < final(self)@.len(),
    {
        match self.get(name) {
            Some(i) => i,
            None => {
                let i = self.entries.len();
                self.entries.push(name.clone());
                proof {
                    assert(self@ =~= spec_alloc(old(self)@, name@));
                }
                i
            },
        }
    }
}

// ---------------------------------------------------------------------
// The compilation relation
// ---------------------------------------------------------------------

/// The compiler's state: the constraints emitted so far, the names
/// allocated so far (position = index), and the public-input names in
/// the order they were introduced.
#[verifier::ext_equal]
pub struct CompState {
    pub cons: Seq<SpecConstraint>,
    pub names: Seq<Seq<char>>,
    pub publics: Seq<Seq<char>>,
}

/// The state before any constraint: only the constant-one wire exists.
pub open spec fn initial_state() -> CompState {
    CompState { cons: seq![], names: seq!["1"@], publics: seq![] }
}

/// Introduces the public variable `name`, records it, and pins it to the
/// literal `val` with the constraint `(name) * (1) = (val * 1)`.
pub open spec fn bind_public(st: CompState, name: Seq<char>, val: int) -> CompState {
    let idx = name_pos(st.names, name);
    CompState {
        cons: st.cons.push(
            SpecConstraint {
                a: seq![(idx, 1int)],
                b: seq![(0int, 1int)],
                c: seq![(0int, val)],
            },
        ),
        names: spec_alloc(st.names, name),
        publics: st.publics.push(name),
    }
}

/// The constraints that precede the gates: one per public input, in the
/// fixed order sender balance, receiver balance, transfer amount.
pub open spec fn preamble_state(c: Circuit) -> CompState {
    let st0 = initial_state();
    let st1 = match table_lookup(c.inputs@, c.sender@) {
        Some(bal) => bind_public(st0, c.sender@ + "_initial_balance"@, spec_i32_to_field(bal)),
        None => st0,
    };
    let st2 = match table_lookup(c.inputs@, c.receiver@) {
        Some(bal) => bind_public(st1, c.receiver@ + "_initial_balance"@, spec_i32_to_field(bal)),
        None => st1,
    };
    bind_public(st2, "transfer_amount_public"@, spec_i32_to_field(c.transfer_amount as int))
}

/// The constraints one gate adds, with every referenced wire allocated
/// on first sight, in argument order.
pub open spec fn gate_step(st: CompState, g: Gate) -> CompState {
    match g {
        Gate::Add(a, b, c, _m) => {
            let ia = name_pos(st.names, a@);
            let n1 = spec_alloc(st.names, a@);
            let ib = name_pos(n1, b@);
            let n2 = spec_alloc(n1, b@);
            let ic = name_pos(n2, c@);
            let n3 = spec_alloc(n2, c@);
            let la = spec_lc_insert(spec_lc_insert(seq![], ia, 1), ib, 1);
            CompState {
                cons: st.cons.push(
                    SpecConstraint { a: la, b: seq![(0int, 1int)], c: seq![(ic, 1int)] },
                ),
                names: n3,
                publics: st.publics,
            }
        },
        Gate::Mul(a, b, c, _m) => {
            let ia = name_pos(st.names, a@);
            let n1 = spec_alloc(st.names, a@);
            let ib = name_pos(n1, b@);
            let n2 = spec_alloc(n1, b@);
            let ic = name_pos(n2, c@);
            let n3 = spec_alloc(n2, c@);
            CompState {
                cons: st.cons.push(
                    SpecConstraint {
                        a: seq![(ia, 1int)],
                        b: seq![(ib, 1int)],
                        c: seq![(ic, 1int)],
                    },
                ),
                names: n3,
                publics: st.publics,
            }
        },
        Gate::Sub(a, b, c, _m) => {
            let ia = name_pos(st.names, a@);
            let n1 = spec_alloc(st.names, a@);
            let ib = name_pos(n1, b@);
            let n2 = spec_alloc(n1, b@);
            let ic = name_pos(n2, c@);
            let n3 = spec_alloc(n2, c@);
            let la = spec_lc_insert(spec_lc_insert(seq![], ia, 1), ib, field_order() - 1);
            CompState {
                cons: st.cons.push(
                    SpecConstraint { a: la, b: seq![(0int, 1int)], c: seq![(ic, 1int)] },
                ),
                names: n3,
                publics: st.publics,
            }
        },
        Gate::Eq(a, b, out) => {
            let ia = name_pos(st.names, a@);
            let n1 = spec_alloc(st.names, a@);
            let ib = name_pos(n1, b@);
            let n2 = spec_alloc(n1, b@);
            let io = name_pos(n2, out@);
            let n3 = spec_alloc(n2, out@);
            let la = spec_lc_insert(spec_lc_insert(seq![], ia, 1), ib, field_order() - 1);
            let con1 = SpecConstraint { a: la, b: seq![(0int, 1int)], c: seq![(io, 1int)] };
            let con2 = SpecConstraint {
                a: seq![(io, 1int)],
                b: seq![(io, 1int)],
                c: seq![(0int, 0int)],
            };
            CompState { cons: st.cons.push(con1).push(con2), names: n3, publics: st.publics }
        },
        Gate::Hash(input, output) => {
            let ii = name_pos(st.names, input@);
            let n1 = spec_alloc(st.names, input@);
            let io = name_pos(n1, output@);
            let n2 = spec_alloc(n1, output@);
            CompState {
                cons: st.cons.push(
                    SpecConstraint {
                        a: seq![(ii, 1int)],
                        b: seq![(0int, 7int)],
                        c: seq![(io, 1int)],
                    },
                ),
                names: n2,
                publics: st.publics,
            }
        },
        Gate::Const(name, val) => {
            let idx = name_pos(st.names, name@);
            let n1 = spec_alloc(st.names, name@);
            CompState {
                cons: st.cons.push(
                    SpecConstraint {
                        a: seq![(0int, spec_i32_to_field(val as int))],
                        b: seq![(0int, 1int)],
                        c: seq![(idx, 1int)],
                    },
                ),
                names: n1,
                publics: st.publics,
            }
        },
        Gate::Xor(a, b, c) => {
            let prod = a@ + "_xor_prod_"@ + b@;
            let ia = name_pos(st.names, a@);
            let n1 = spec_alloc(st.names, a@);
            let ib = name_pos(n1, b@);
            let n2 = spec_alloc(n1, b@);
            let ip = name_pos(n2, prod);
            let n3 = spec_alloc(n2, prod);
            let ic = name_pos(n3, c@);
            let n4 = spec_alloc(n3, c@);
            let con1 = SpecConstraint {
                a: seq![(ia, 1int)],
                b: seq![(ib, 1int)],
                c: seq![(ip, 1int)],
            };
            let la2 = spec_lc_insert(
                spec_lc_insert(spec_lc_insert(seq![], ia, 1), ib, 1),
                ip,
                field_order() - 2,
            );
            let con2 = SpecConstraint { a: la2, b: seq![(0int, 1int)], c: seq![(ic, 1int)] };
            let con3 = SpecConstraint {
                a: seq![(ia, 1int)],
                b: seq![(ia, 1int)],
                c: seq![(ia, 1int)],
            };
            let con4 = SpecConstraint {
                a: seq![(ib, 1int)],
                b: seq![(ib, 1int)],
                c: seq![(ib, 1int)],
            };
            CompState {
                cons: st.cons.push(con1).push(con2).push(con3).push(con4),
                names: n4,
                publics: st.publics,
            }
        },
    }
}

/// The state after the gates from position `i` on are compiled.
pub open spec fn comp_from(st: CompState, gates: Seq<Gate>, i: int) -> CompState
    decreases gates.len() - i,
{
    if i < 0 || i >= gates.len() {
        st
    } else {
        comp_from(gate_step(st, gates[i]), gates, i + 1)
    }
}

/// The complete compilation of a circuit, in the mathematical model.
#[verifier::ext_equal]
pub struct SpecR1cs {
    pub constraints: Seq<SpecConstraint>,
    pub names: Seq<Seq<char>>,
    pub publics: Seq<Seq<char>>,
    pub num_variables: int,
    pub num_public_inputs: int,
}

/// What `to_r1cs_system` returns, as a function of the circuit alone.
pub open spec fn spec_to_r1cs(c: Circuit) -> SpecR1cs {
    let st = comp_from(preamble_state(c), c.gates@, 0);
    SpecR1cs {
        constraints: st.cons,
        names: st.names,
        publics: st.publics,
        num_variables: st.names.len() as int,
        num_public_inputs: 1 + st.publics.len() as int,
    }
}

// ---------------------------------------------------------------------
// Executable representation
// ---------------------------------------------------------------------

/// One rank-1 constraint: three sparse linear combinations.
pub struct R1csConstraint {
    pub a: Vec<(usize, Fe)>,
    pub b: Vec<(usize, Fe)>,
    pub c: Vec<(usize, Fe)>,
}

impl View for R1csConstraint {
    type V = SpecConstraint;

    open spec fn view(&self) -> SpecConstraint {
        SpecConstraint { a: lc_view(self.a@), b: lc_view(self.b@), c: lc_view(self.c@) }
    }
}

/// The views of a sequence of constraints.
pub open spec fn cons_view(s: Seq<R1csConstraint>) -> Seq<SpecConstraint> {
    s.map(|i: int, con: R1csConstraint| con@)
}

/// The views of a sequence of names.
pub open spec fn pubs_view(s: Seq<String>) -> Seq<Seq<char>> {
    s.map(|i: int, name: String| name@)
}

/// A compiled rank-1 constraint system.
pub struct R1CSSystem {
    pub raw_constraints: Vec<R1csConstraint>,
    pub var_map: VarMap,
    pub num_variables: usize,
    pub num_public_inputs: usize,
    pub public_input_names: Vec<String>,
}

impl View for R1CSSystem {
    type V = SpecR1cs;

    open spec fn view(&self) -> SpecR1cs {
        SpecR1cs {
            constraints: cons_view(self.raw_constraints@),
            names: self.var_map@,
            publics: pubs_view(self.public_input_names@),
            num_variables: self.num_variables as int,
            num_public_inputs: self.num_public_inputs as int,
        }
    }
}

// ---------------------------------------------------------------------
// The compiler
// ---------------------------------------------------------------------

/// A field element of value one.
fn fe_one() -> (r: Fe)
    ensures
        fe_value(r) == 1,
{
    Fe::from_u64(1)
}

/// A one-term linear combination.
fn lc_single(idx: usize, coeff: Fe) -> (r: Vec<(usize, Fe)>)
    ensures
        lc_view(r@) == seq![(idx as int, fe_value(coeff))],
{
    let mut v: Vec<(usize, Fe)> = Vec::new();
    v.push((idx, coeff));
    proof {
        assert(lc_view(v@) =~= seq![(idx as int, fe_value(coeff))]);
    }
    v
}

/// Sets the coefficient of `idx` to `coeff`: replaces the first term
/// over `idx`, or appends one.
fn lc_set(v: &mut Vec<(usize, Fe)>, idx: usize, coeff: Fe)
    ensures
        lc_view(final(v)@) == spec_lc_insert(lc_view(old(v)@), idx as int, fe_value(coeff)),
{
    let n = v.len();
    let mut i: usize = 0;
    while i < n
        invariant
            n == v@.len(),
            0 <= i <= n,
            *v == *old(v),
            term_pos(lc_view(v@), idx as int) == term_pos_from(lc_view(v@), idx as int, i as int),
        decreases n - i,
    {
        proof {
            assert(lc_view(v@)[i as int] == (v@[i as int].0 as int, fe_value(v@[i as int].1)));
        }
        if v[i].0 == idx {
            proof {
                assert(term_pos_from(lc_view(v@), idx as int, i as int) == i as int);
            }
            v[i] = (idx, coeff);
            proof {
                assert(lc_view(v@) =~= spec_lc_insert(
                    lc_view(old(v)@),
                    idx as int,
                    fe_value(coeff),
                ));
            }
            return ;
        }
        proof {
            assert(term_pos_from(lc_view(v@), idx as int, i as int) == term_pos_from(
                lc_view(v@),
                idx as int,
                i as int + 1,
            ));
        }
        i += 1;
    }
    v.push((idx, coeff));
    proof {
        assert(lc_view(v@) =~= spec_lc_insert(lc_view(old(v)@), idx as int, fe_value(coeff)));
    }
}

/// `comp_from` advances one gate at a time.
proof fn lemma_comp_from_step(st: CompState, gates: Seq<Gate>, i: int)
    requires
        0 <= i < gates.len(),
    ensures
        comp_from(st, gates, i) == comp_from(gate_step(st, gates[i]), gates, i + 1),
{
}

impl Circuit {
    /// Flattens the circuit into a rank-1 constraint system. The result
    /// is a function of the circuit alone: the constraint sequence, the
    /// variable map and the public-input order all follow [`spec_to_r1cs`].
    pub fn to_r1cs_system(&self) -> (r: R1CSSystem)
        ensures
            r@ == spec_to_r1cs(*self),
    {
        let mut var_map = VarMap::new();
        let mut constraints: Vec<R1csConstraint> = Vec::new();
        let mut publics: Vec<String> = Vec::new();

        proof {
            assert(CompState {
                cons: cons_view(constraints@),
                names: var_map@,
                publics: pubs_view(publics@),
            } =~~= initial_state());
        }

        if self.inputs.contains_key(&self.sender) {
            let mut public_name = self.sender.clone();
            public_name.append("_initial_balance");
            publics.push(public_name.clone());
            let idx = var_map.get_index(&public_name);
            let bal = match self.inputs.get(&self.sender) {
                Some(v) => v,
                None => 0,
            };
            let la = lc_single(idx, fe_one());
            let lb = lc_single(0, fe_one());
            let lcc = lc_single(0, i32_to_fr(bal));
            constraints.push(R1csConstraint { a: la, b: lb, c: lcc });
        }
        if self.inputs.contains_key(&self.receiver) {
            let mut public_name = self.receiver.clone();
            public_name.append("_initial_balance");
            publics.push(public_name.clone());
            let idx = var_map.get_index(&public_name);
            let bal = match self.inputs.get(&self.receiver) {
                Some(v) => v,
                None => 0,
            };
            let la = lc_single(idx, fe_one());
            let lb = lc_single(0, fe_one());
            let lcc = lc_single(0, i32_to_fr(bal));
            constraints.push(R1csConstraint { a: la, b: lb, c: lcc });
        }
        {
            let public_name = String::from_str("transfer_amount_public");
            publics.push(public_name.clone());
            let idx = var_map.get_index(&public_name);
            let la = lc_single(idx, fe_one());
            let lb = lc_single(0, fe_one());
            let lcc = lc_single(0, i32_to_fr(self.transfer_amount));
            constraints.push(R1csConstraint { a: la, b: lb, c: lcc });
        }

        proof {
            assert(CompState {
                cons: cons_view(constraints@),
                names: var_map@,
                publics: pubs_view(publics@),
            } =~~= preamble_state(*self));
        }

        let ng = self.gates.len();
        let mut g: usize = 0;
        while g < ng
            invariant
                ng == self.gates@.len(),
                0 <= g <= ng,
                pubs_view(publics@).len() <= 3,
                comp_from(preamble_state(*self), self.gates@, 0) == comp_from(
                    CompState {
                        cons: cons_view(constraints@),
                        names: var_map@,
                        publics: pubs_view(publics@),
                    },
                    self.gates@,
                    g as int,
                ),
            decreases ng - g,
        {
            let ghost prev = CompState {
                cons: cons_view(constraints@),
                names: var_map@,
                publics: pubs_view(publics@),
            };
            let gate = &self.gates[g];
            match gate {
                Gate::Add(a, b, c, _m) => {
                    let ia = var_map.get_index(a);
                    let ib = var_map.get_index(b);
                    let ic = var_map.get_index(c);
                    let mut la: Vec<(usize, Fe)> = Vec::new();
                    lc_set(&mut la, ia, fe_one());
                    lc_set(&mut la, ib, fe_one());
                    let lb = lc_single(0, fe_one());
                    let lcc = lc_single(ic, fe_one());
                    constraints.push(R1csConstraint { a: la, b: lb, c: lcc });
                },
                Gate::Mul(a, b, c, _m) => {
                    let ia = var_map.get_index(a);
                    let ib = var_map.get_index(b);
                    let ic = var_map.get_index(c);
                    let la = lc_single(ia, fe_one());
                    let lb = lc_single(ib, fe_one());
                    let lcc = lc_single(ic, fe_one());
                    constraints.push(R1csConstraint { a: la, b: lb, c: lcc });
                },
                Gate::Sub(a, b, c, _m) => {
                    let ia = var_map.get_index(a);
                    let ib = var_map.get_index(b);
                    let ic = var_map.get_index(c);
                    let mut la: Vec<(usize, Fe)> = Vec::new();
                    lc_set(&mut la, ia, fe_one());
                    lc_set(&mut la, ib, i32_to_fr(-1));
                    let lb = lc_single(0, fe_one());
                    let lcc = lc_single(ic, fe_one());
                    constraints.push(R1csConstraint { a: la, b: lb, c: lcc });
                },
                Gate::Eq(a, b, out) => {
                    let ia = var_map.get_index(a);
                    let ib = var_map.get_index(b);
                    let io = var_map.get_index(out);
                    let mut la: Vec<(usize, Fe)> = Vec::new();
                    lc_set(&mut la, ia, fe_one());
                    lc_set(&mut la, ib, i32_to_fr(-1));
                    let lb = lc_single(0, fe_one());
                    let lcc = lc_single(io, fe_one());
                    constraints.push(R1csConstraint { a: la, b: lb, c: lcc });
                    let la2 = lc_single(io, fe_one());
                    let lb2 = lc_single(io, fe_one());
                    let lc2 = lc_single(0, Fe::from_u64(0));
                    constraints.push(R1csConstraint { a: la2, b: lb2, c: lc2 });
                },
                Gate::Hash(input, output) => {
                    let ii = var_map.get_index(input);
                    let io = var_map.get_index(output);
                    let la = lc_single(ii, fe_one());
                    let lb = lc_single(0, Fe::from_u64(7));
                    let lcc = lc_single(io, fe_one());
                    constraints.push(R1csConstraint { a: la, b: lb, c: lcc });
                },
                Gate::Const(name, val) => {
                    let idx = var_map.get_index(name);
                    let la = lc_single(0, i32_to_fr(*val));
                    let lb = lc_single(0, fe_one());
                    let lcc = lc_single(idx, fe_one());
                    constraints.push(R1csConstraint { a: la, b: lb, c: lcc });
                },
                Gate::Xor(a, b, c) => {
                    let ia = var_map.get_index(a);
                    let ib = var_map.get_index(b);
                    let mut prod_name = a.clone();
                    prod_name.append("_xor_prod_");
                    prod_name.append(b.as_str());
                    let ip = var_map.get_index(&prod_name);
                    let ic = var_map.get_index(c);
                    let la1 = lc_single(ia, fe_one());
                    let lb1 = lc_single(ib, fe_one());
                    let lc1 = lc_single(ip, fe_one());
                    constraints.push(R1csConstraint { a: la1, b: lb1, c: lc1 });
                    let mut la2: Vec<(usize, Fe)> = Vec::new();
                    lc_set(&mut la2, ia, fe_one());
                    lc_set(&mut la2, ib, fe_one());
                    lc_set(&mut la2, ip, i32_to_fr(-2));
                    let lb2 = lc_single(0, fe_one());
                    let lc2 = lc_single(ic, fe_one());
                    constraints.push(R1csConstraint { a: la2, b: lb2, c: lc2 });
                    let la3 = lc_single(ia, fe_one());
                    let lb3 = lc_single(ia, fe_one());
                    let lc3 = lc_single(ia, fe_one());
                    constraints.push(R1csConstraint { a: la3, b: lb3, c: lc3 });
                    let la4 = lc_single(ib, fe_one());
                    let lb4 = lc_single(ib, fe_one());
                    let lc4 = lc_single(ib, fe_one());
                    constraints.push(R1csConstraint { a: la4, b: lb4, c: lc4 });
                },
            }
            proof {
                let stp = gate_step(prev, self.gates@[g as int]);
                assert(lc_view(Seq::<(usize, Fe)>::empty()) =~= Seq::<(int, int)>::empty());
                assert(var_map@ == stp.names);
                assert(pubs_view(publics@) =~= stp.publics);
                assert(cons_view(constraints@) =~~= stp.cons);
                assert(CompState {
                    cons: cons_view(constraints@),
                    names: var_map@,
                    publics: pubs_view(publics@),
                } =~~= stp);
                lemma_comp_from_step(prev, self.gates@, g as int);
            }
            g += 1;
        }

        let num_variables = var_map.len();
        let num_public_inputs = 1 + publics.len();
        let r = R1CSSystem {
            raw_constraints: constraints,
            var_map,
            num_variables,
            num_public_inputs,
            public_input_names: publics,
        };
        proof {
            assert(r@ =~~= spec_to_r1cs(*self));
        }
        r
    }
}

// ---------------------------------------------------------------------
// Evaluating constraints
// ---------------------------------------------------------------------

/// The reduced value of `A . z` for an assignment vector.
fn lc_eval(terms: &Vec<(usize, Fe)>, z: &Vec<Fe>) -> (r: Fe)
    requires
        lc_indices_below(lc_view(terms@), z@.len() as int),
    ensures
        fe_value(r) == lc_sum(lc_view(terms@), crate::witness::values_view(z@)) % field_order(),
{
    let ghost zv = crate::witness::values_view(z@);
    let n = terms.len();
    let mut acc = Fe::from_u64(0);
    proof {
        assert(lc_view(terms@).take(0) =~= Seq::<(int, int)>::empty());
        vstd::arithmetic::div_mod::lemma_small_mod(0nat, field_order() as nat);
    }
    let mut i: usize = 0;
    while i < n
        invariant
            n == terms@.len(),
            0 <= i <= n,
            lc_indices_below(lc_view(terms@), z@.len() as int),
            zv == crate::witness::values_view(z@),
            fe_value(acc) == lc_sum(lc_view(terms@).take(i as int), zv) % field_order(),
        decreases n - i,
    {
        let (idx, coeff) = &terms[i];
        proof {
            assert(lc_view(terms@)[i as int] == (terms@[i as int].0 as int, fe_value(
                terms@[i as int].1,
            )));
            assert(0 <= lc_view(terms@)[i as int].0 < z@.len() as int);
            assert(*idx < z@.len());
            assert(zv[*idx as int] == fe_value(z@[*idx as int]));
        }
        let term = coeff.mul(&z[*idx]);
        let next = acc.add(&term);
        proof {
            let p = field_order();
            let pre = lc_view(terms@).take(i as int);
            let cur = lc_view(terms@).take(i as int + 1);
            assert(cur.drop_last() =~= pre);
            assert(cur.last() == lc_view(terms@)[i as int]);
            let co = fe_value(terms@[i as int].1);
            let zval = zv[terms@[i as int].0 as int];
            assert(lc_sum(cur, zv) == lc_sum(pre, zv) + co * zval);
            vstd::arithmetic::div_mod::lemma_mul_mod_noop(co, zval, p);
            vstd::arithmetic::div_mod::lemma_add_mod_noop(lc_sum(pre, zv), co * zval, p);
            vstd::arithmetic::div_mod::lemma_mod_twice(co * zval, p);
            vstd::arithmetic::div_mod::lemma_mod_twice(lc_sum(pre, zv), p);
            assert(fe_value(next) == (lc_sum(pre, zv) % p + (co * zval) % p) % p);
            assert((lc_sum(pre, zv) % p % p + (co * zval) % p % p) % p == (lc_sum(pre, zv) % p
                + (co * zval) % p) % p);
            assert(fe_value(next) == lc_sum(cur, zv) % p);
        }
        acc = next;
        i += 1;
    }
    proof {
        assert(lc_view(terms@).take(n as int) =~= lc_view(terms@));
    }
    acc
}

/// Whether the assignment satisfies the constraint:
/// `(A . z) * (B . z) = C . z` in the scalar field.
pub fn constraint_holds(con: &R1csConstraint, z: &Vec<Fe>) -> (r: bool)
    requires
        constraint_indices_below(con@, z@.len() as int),
    ensures
        r == constraint_satisfied(con@, crate::witness::values_view(z@)),
{
    let ghost zv = crate::witness::values_view(z@);
    let a = lc_eval(&con.a, z);
    let b = lc_eval(&con.b, z);
    let c = lc_eval(&con.c, z);
    let left = a.mul(&b);
    proof {
        let p = field_order();
        vstd::arithmetic::div_mod::lemma_mul_mod_noop(lc_sum(con@.a, zv), lc_sum(con@.b, zv), p);
        vstd::arithmetic::div_mod::lemma_mod_twice(lc_sum(con@.c, zv), p);
        vstd::arithmetic::div_mod::lemma_mod_bound(lc_sum(con@.a, zv) * lc_sum(con@.b, zv), p);
        vstd::arithmetic::div_mod::lemma_mod_bound(lc_sum(con@.c, zv), p);
    }
    left.equals(&c)
}

} // verus!
