//! The witness evaluator.
//!
//! [`Circuit::compute_witness`] assigns a field value to every wire: the
//! declared inputs and the three public preamble wires seed a value table,
//! each gate then derives its output from the values of its arguments, and
//! the table is finally projected onto the variable indices of the
//! compiled system. The whole computation is specified by
//! [`spec_compute_witness`]; each failure is one of four error kinds.

use vstd::prelude::*;
use vstd::string::StringExecFns;
use crate::field::{Fe, fe_value, field_order, spec_i32_to_field, i32_to_fr};
use crate::circuit::{Circuit, Gate};
use crate::wiremap::{table_lookup, table_insert, key_pos, key_pos_from};
use crate::r1cs::VarMap;

verus! {

/// Why witness computation failed.
#[derive(Debug, PartialEq, Eq)]
pub enum WitnessError {
    /// A gate read a wire that has no value yet.
    UndefinedWire(String),
    /// An xor input was neither zero nor one.
    NonBooleanInput(String),
    /// The two inputs of an equality gate differ.
    EqualityMismatch,
    /// A variable of the compiled system never received a value.
    MissingWitness(String),
}

/// The mathematical shape of a witness error.
pub enum SpecWitErr {
    UndefinedWire(Seq<char>),
    NonBooleanInput(Seq<char>),
    EqualityMismatch,
    MissingWitness(Seq<char>),
}

impl View for WitnessError {
    type V = SpecWitErr;

    open spec fn view(&self) -> SpecWitErr {
        match self {
            WitnessError::UndefinedWire(name) => SpecWitErr::UndefinedWire(name@),
            WitnessError::NonBooleanInput(name) => SpecWitErr::NonBooleanInput(name@),
            WitnessError::EqualityMismatch => SpecWitErr::EqualityMismatch,
            WitnessError::MissingWitness(name) => SpecWitErr::MissingWitness(name@),
        }
    }
}

/// The values of a sequence of field elements.
pub open spec fn values_view(s: Seq<Fe>) -> Seq<int> {
    s.map(|i: int, x: Fe| fe_value(x))
}

// ---------------------------------------------------------------------
// The evaluation relation
// ---------------------------------------------------------------------

/// The value table seeded with the declared inputs from position `i` on.
pub open spec fn seed_inputs_from(
    entries: Seq<(Seq<char>, int)>,
    i: int,
    acc: Seq<(Seq<char>, int)>,
) -> Seq<(Seq<char>, int)>
    decreases entries.len() - i,
{
    if i < 0 || i >= entries.len() {
        acc
    } else {
        seed_inputs_from(
            entries,
            i + 1,
            table_insert(acc, entries[i].0, spec_i32_to_field(entries[i].1)),
        )
    }
}

/// The value table before any gate runs: every declared input, the
/// constant-one wire, and the three public preamble wires.
pub open spec fn seed_values(c: Circuit) -> Seq<(Seq<char>, int)> {
    let m1 = seed_inputs_from(c.inputs@, 0, seq![]);
    let m2 = table_insert(m1, "1"@, 1);
    let m3 = match table_lookup(c.inputs@, c.sender@) {
        Some(bal) => table_insert(
            m2,
            c.sender@ + "_initial_balance"@,
            spec_i32_to_field(bal),
        ),
        None => m2,
    };
    let m4 = match table_lookup(c.inputs@, c.receiver@) {
        Some(bal) => table_insert(
            m3,
            c.receiver@ + "_initial_balance"@,
            spec_i32_to_field(bal),
        ),
        None => m3,
    };
    table_insert(m4, "transfer_amount_public"@, spec_i32_to_field(c.transfer_amount as int))
}

/// Whether a field value is a bit.
pub open spec fn is_boolean(v: int) -> bool {
    v == 0 || v == 1
}

/// The value table after one gate, or the error it raises.
pub open spec fn eval_gate(m: Seq<(Seq<char>, int)>, g: Gate) -> Result<
    Seq<(Seq<char>, int)>,
    SpecWitErr,
> {
    match g {
        Gate::Add(a, b, c, _w) => match (table_lookup(m, a@), table_lookup(m, b@)) {
            (Some(va), Some(vb)) => Ok(table_insert(m, c@, (va + vb) % field_order())),
            (None, _) => Err(SpecWitErr::UndefinedWire(a@)),
            (Some(_), None) => Err(SpecWitErr::UndefinedWire(b@)),
        },
        Gate::Mul(a, b, c, _w) => match (table_lookup(m, a@), table_lookup(m, b@)) {
            (Some(va), Some(vb)) => Ok(table_insert(m, c@, (va * vb) % field_order())),
            (None, _) => Err(SpecWitErr::UndefinedWire(a@)),
            (Some(_), None) => Err(SpecWitErr::UndefinedWire(b@)),
        },
        Gate::Sub(a, b, c, _w) => match (table_lookup(m, a@), table_lookup(m, b@)) {
            (Some(va), Some(vb)) => Ok(table_insert(m, c@, (va - vb) % field_order())),
            (None, _) => Err(SpecWitErr::UndefinedWire(a@)),
            (Some(_), None) => Err(SpecWitErr::UndefinedWire(b@)),
        },
        Gate::Eq(a, b, out) => match (table_lookup(m, a@), table_lookup(m, b@)) {
            (Some(va), Some(vb)) => if va != vb {
                Err(SpecWitErr::EqualityMismatch)
            } else {
                Ok(table_insert(m, out@, 0))
            },
            (None, _) => Err(SpecWitErr::UndefinedWire(a@)),
            (Some(_), None) => Err(SpecWitErr::UndefinedWire(b@)),
        },
        Gate::Hash(input, output) => match table_lookup(m, input@) {
            Some(vi) => Ok(table_insert(m, output@, (vi * 7) % field_order())),
            None => Err(SpecWitErr::UndefinedWire(input@)),
        },
        Gate::Const(name, val) => Ok(table_insert(m, name@, spec_i32_to_field(val as int))),
        Gate::Xor(a, b, c) => match (table_lookup(m, a@), table_lookup(m, b@)) {
            (Some(va), Some(vb)) => if !is_boolean(va) {
                Err(SpecWitErr::NonBooleanInput(a@))
            } else if !is_boolean(vb) {
                Err(SpecWitErr::NonBooleanInput(b@))
            } else {
                let vab = (va * vb) % field_order();
                let m1 = table_insert(m, a@ + "_xor_prod_"@ + b@, vab);
                let vc = ((va + vb) % field_order() - (2 * vab) % field_order())
                    % field_order();
                Ok(table_insert(m1, c@, vc))
            },
            (None, _) => Err(SpecWitErr::UndefinedWire(a@)),
            (Some(_), None) => Err(SpecWitErr::UndefinedWire(b@)),
        },
    }
}

/// The value table after the gates from position `i` on, or the first
/// error raised.
pub open spec fn eval_gates_from(
    m: Seq<(Seq<char>, int)>,
    gates: Seq<Gate>,
    i: int,
) -> Result<Seq<(Seq<char>, int)>, SpecWitErr>
    decreases gates.len() - i,
{
    if i < 0 || i >= gates.len() {
        Ok(m)
    } else {
        match eval_gate(m, gates[i]) {
            Ok(m2) => eval_gates_from(m2, gates, i + 1),
            Err(e) => Err(e),
        }
    }
}

/// `acc` extended with the value of each variable from position `i` on,
/// or the first variable that has no value, in index order.
pub open spec fn project_from(
    m: Seq<(Seq<char>, int)>,
    names: Seq<Seq<char>>,
    i: int,
    acc: Seq<int>,
) -> Result<Seq<int>, SpecWitErr>
    decreases names.len() - i,
{
    if i < 0 || i >= names.len() {
        Ok(acc)
    } else {
        match table_lookup(m, names[i]) {
            Some(v) => project_from(m, names, i + 1, acc.push(v)),
            None => Err(SpecWitErr::MissingWitness(names[i])),
        }
    }
}

/// The full witness for the variables `names`, as a function of the
/// circuit, or the first error.
pub open spec fn spec_compute_witness(c: Circuit, names: Seq<Seq<char>>) -> Result<
    Seq<int>,
    SpecWitErr,
> {
    match eval_gates_from(seed_values(c), c.gates@, 0) {
        Ok(m) => project_from(m, names, 0, seq![]),
        Err(e) => Err(e),
    }
}

// ---------------------------------------------------------------------
// The executable value table
// ---------------------------------------------------------------------

/// A table from wire names to field values.
struct ValMap {
    entries: Vec<(String, Fe)>,
}

impl View for ValMap {
    type V = Seq<(Seq<char>, int)>;

    closed spec fn view(&self) -> Seq<(Seq<char>, int)> {
        self.entries@.map(|i: int, e: (String, Fe)| (e.0@, fe_value(e.1)))
    }
}

impl ValMap {
    fn new() -> (r: ValMap)
        ensures
            r@ == Seq::<(Seq<char>, int)>::empty(),
    {
        let r = ValMap { entries: Vec::new() };
        proof {
            assert(r@ =~= Seq::<(Seq<char>, int)>::empty());
        }
        r
    }

    /// The value bound to `name`, if any.
    fn get(&self, name: &String) -> (r: Option<Fe>)
        ensures
            match r {
                Some(v) => table_lookup(self@, name@) == Some(fe_value(v)),
                None => table_lookup(self@, name@) is None,
            },
    {
        let n = self.entries.len();
        let mut i: usize = 0;
        while i < n
            invariant
                n == self@.len(),
                0 <= i <= n,
                key_pos(self@, name@) == key_pos_from(self@, name@, i as int),
            decreases n - i,
        {
            proof {
                assert(self@[i as int] == (self.entries@[i as int].0@, fe_value(
                    self.entries@[i as int].1,
                )));
            }
            if self.entries[i].0 == *name {
                proof {
                    assert(key_pos_from(self@, name@, i as int) == i as int);
                }
                return Some(self.entries[i].1.dup());
            }
            proof {
                assert(key_pos_from(self@, name@, i as int) == key_pos_from(
                    self@,
                    name@,
                    i as int + 1,
                ));
            }
            i += 1;
        }
        None
    }

    /// Binds `name` to `val`, replacing any earlier binding.
    fn insert(&mut self, name: String, val: Fe)
        ensures
            final(self)@ == table_insert(old(self)@, name@, fe_value(val)),
    {
        let n = self.entries.len();
        let mut i: usize = 0;
        while i < n
            invariant
                n == self@.len(),
                0 <= i <= n,
                *self == *old(self),
                key_pos(self@, name@) == key_pos_from(self@, name@, i as int),
            decreases n - i,
        {
            proof {
                assert(self@[i as int] == (self.entries@[i as int].0@, fe_value(
                    self.entries@[i as int].1,
                )));
            }
            if self.entries[i].0 == name {
                proof {
                    assert(key_pos_from(self@, name@, i as int) == i as int);
                }
                self.entries[i] = (name, val);
                proof {
                    assert(self@ =~= table_insert(old(self)@, name@, fe_value(val)));
                }
                return ;
            }
            proof {
                assert(key_pos_from(self@, name@, i as int) == key_pos_from(
                    self@,
                    name@,
                    i as int + 1,
                ));
            }
            i += 1;
        }
        self.entries.push((name, val));
        proof {
            assert(self@ =~= table_insert(old(self)@, name@, fe_value(val)));
        }
    }
}

// ---------------------------------------------------------------------
// The evaluator
// ---------------------------------------------------------------------

impl Circuit {
    /// Computes the value of every wire and projects the values onto the
    /// variable indices of `r1cs_var_map`: entry `i` of the result is the
    /// value of the variable with index `i`.
    pub fn compute_witness(&self, r1cs_var_map: &VarMap) -> (r: Result<Vec<Fe>, WitnessError>)
        ensures
            match r {
                Ok(w) => spec_compute_witness(*self, r1cs_var_map@) == Ok::<Seq<int>, SpecWitErr>(
                    values_view(w@),
                ) && w@.len() == r1cs_var_map@.len(),
                Err(e) => spec_compute_witness(*self, r1cs_var_map@) == Err::<
                    Seq<int>,
                    SpecWitErr,
                >(e@),
            },
    {
        let mut values = ValMap::new();

        let ni = self.inputs.len();
        let mut i: usize = 0;
        while i < ni
            invariant
                ni == self.inputs@.len(),
                0 <= i <= ni,
                seed_inputs_from(self.inputs@, 0, Seq::empty()) == seed_inputs_from(
                    self.inputs@,
                    i as int,
                    values@,
                ),
            decreases ni - i,
        {
            let name = self.inputs.key_at(i).clone();
            let val = self.inputs.val_at(i);
            values.insert(name, i32_to_fr(val));
            i += 1;
        }

        values.insert(String::from_str("1"), Fe::from_u64(1));

        if let Some(bal) = self.inputs.get(&self.sender) {
            let mut name = self.sender.clone();
            name.append("_initial_balance");
            values.insert(name, i32_to_fr(bal));
        }
        if let Some(bal) = self.inputs.get(&self.receiver) {
            let mut name = self.receiver.clone();
            name.append("_initial_balance");
            values.insert(name, i32_to_fr(bal));
        }
        values.insert(String::from_str("transfer_amount_public"), i32_to_fr(self.transfer_amount));

        proof {
            assert(values@ == seed_values(*self));
        }

        let ng = self.gates.len();
        let mut g: usize = 0;
        while g < ng
            invariant
                ng == self.gates@.len(),
                0 <= g <= ng,
                eval_gates_from(seed_values(*self), self.gates@, 0) == eval_gates_from(
                    values@,
                    self.gates@,
                    g as int,
                ),
            decreases ng - g,
        {
            let ghost prev = values@;
            let gate = &self.gates[g];
            match gate {
                Gate::Add(a, b, c, _m) => {
                    let va = match values.get(a) {
                        Some(v) => v,
                        None => {
                            return Err(WitnessError::UndefinedWire(a.clone()));
                        },
                    };
                    let vb = match values.get(b) {
                        Some(v) => v,
                        None => {
                            return Err(WitnessError::UndefinedWire(b.clone()));
                        },
                    };
                    values.insert(c.clone(), va.add(&vb));
                },
                Gate::Mul(a, b, c, _m) => {
                    let va = match values.get(a) {
                        Some(v) => v,
                        None => {
                            return Err(WitnessError::UndefinedWire(a.clone()));
                        },
                    };
                    let vb = match values.get(b) {
                        Some(v) => v,
                        None => {
                            return Err(WitnessError::UndefinedWire(b.clone()));
                        },
                    };
                    values.insert(c.clone(), va.mul(&vb));
                },
                Gate::Sub(a, b, c, _m) => {
                    let va = match values.get(a) {
                        Some(v) => v,
                        None => {
                            return Err(WitnessError::UndefinedWire(a.clone()));
                        },
                    };
                    let vb = match values.get(b) {
                        Some(v) => v,
                        None => {
                            return Err(WitnessError::UndefinedWire(b.clone()));
                        },
                    };
                    values.insert(c.clone(), va.sub(&vb));
                },
                Gate::Eq(a, b, out) => {
                    let va = match values.get(a) {
                        Some(v) => v,
                        None => {
                            return Err(WitnessError::UndefinedWire(a.clone()));
                        },
                    };
                    let vb = match values.get(b) {
                        Some(v) => v,
                        None => {
                            return Err(WitnessError::UndefinedWire(b.clone()));
                        },
                    };
                    if !va.equals(&vb) {
                        return Err(WitnessError::EqualityMismatch);
                    }
                    values.insert(out.clone(), Fe::from_u64(0));
                },
                Gate::Hash(input, output) => {
                    let vi = match values.get(input) {
                        Some(v) => v,
                        None => {
                            return Err(WitnessError::UndefinedWire(input.clone()));
                        },
                    };
                    values.insert(output.clone(), vi.mul(&Fe::from_u64(7)));
                },
                Gate::Const(name, val) => {
                    values.insert(name.clone(), i32_to_fr(*val));
                },
                Gate::Xor(a, b, c) => {
                    let va = match values.get(a) {
                        Some(v) => v,
                        None => {
                            return Err(WitnessError::UndefinedWire(a.clone()));
                        },
                    };
                    let vb = match values.get(b) {
                        Some(v) => v,
                        None => {
                            return Err(WitnessError::UndefinedWire(b.clone()));
                        },
                    };
                    let zero = Fe::from_u64(0);
                    let one = Fe::from_u64(1);
                    if !(va.equals(&zero) || va.equals(&one)) {
                        return Err(WitnessError::NonBooleanInput(a.clone()));
                    }
                    if !(vb.equals(&zero) || vb.equals(&one)) {
                        return Err(WitnessError::NonBooleanInput(b.clone()));
                    }
                    let vab = va.mul(&vb);
                    let mut prod_name = a.clone();
                    prod_name.append("_xor_prod_");
                    prod_name.append(b.as_str());
                    values.insert(prod_name, vab.dup());
                    let vc = va.add(&vb).sub(&Fe::from_u64(2).mul(&vab));
                    values.insert(c.clone(), vc);
                },
            }
            proof {
                assert(values@ == eval_gate(prev, self.gates@[g as int])->Ok_0);
            }
            g += 1;
        }

        let nv = r1cs_var_map.len();
        let mut witness: Vec<Fe> = Vec::new();
        proof {
            assert(values_view(witness@) =~= Seq::<int>::empty());
        }
        let mut k: usize = 0;
        while k < nv
            invariant
                nv == r1cs_var_map@.len(),
                0 <= k <= nv,
                witness@.len() == k,
                eval_gates_from(seed_values(*self), self.gates@, 0) == Ok::<Seq<(Seq<char>, int)>, SpecWitErr>(values@),
                project_from(values@, r1cs_var_map@, 0, Seq::<int>::empty()) == project_from(
                    values@,
                    r1cs_var_map@,
                    k as int,
                    values_view(witness@),
                ),
            decreases nv - k,
        {
            let ghost prev_w = witness@;
            let name = r1cs_var_map.name_at(k);
            match values.get(name) {
                Some(v) => {
                    let ghost gv = fe_value(v);
                    witness.push(v);
                    proof {
                        assert(values_view(witness@) =~= values_view(prev_w).push(gv));
                    }
                },
                None => {
                    return Err(WitnessError::MissingWitness(name.clone()));
                },
            }
            k += 1;
        }
        proof {
            assert(values_view(witness@) =~= values_view(witness@));
        }
        Ok(witness)
    }
}

} // verus!
