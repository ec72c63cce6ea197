//! The circuit intermediate representation.
//!
//! A circuit is a list of gates over named wires, together with the
//! declared input and output values and the transfer metadata that the
//! compiler turns into public inputs.

use vstd::prelude::*;
use crate::wiremap::{WireMap, table_lookup, table_insert};

verus! {

/// One gate of the circuit. The optional integer on `Add`, `Mul` and
/// `Sub` is an unused modulus annotation kept from the textual format.
pub enum Gate {
    Add(String, String, String, Option<i32>),
    Mul(String, String, String, Option<i32>),
    Sub(String, String, String, Option<i32>),
    Xor(String, String, String),
    Const(String, i32),
    Hash(String, String),
    Eq(String, String, String),
}

/// A parsed circuit.
pub struct Circuit {
    pub name: String,
    pub inputs: WireMap,
    pub outputs: WireMap,
    pub gates: Vec<Gate>,
    pub sender: String,
    pub receiver: String,
    pub transfer_amount: i32,
}

/// Whether the sender is a declared input with balance at least the
/// transfer amount.
pub open spec fn spec_validate_transfer(c: Circuit) -> bool {
    match table_lookup(c.inputs@, c.sender@) {
        Some(balance) => balance >= c.transfer_amount as int,
        None => false,
    }
}

/// The input table after a valid transfer: the amount moves from the
/// sender's balance to the receiver's, when each is declared.
pub open spec fn spec_transfer_inputs(c: Circuit) -> Seq<(Seq<char>, int)> {
    if !spec_validate_transfer(c) {
        c.inputs@
    } else {
        let after_sender = table_insert(
            c.inputs@,
            c.sender@,
            table_lookup(c.inputs@, c.sender@)->Some_0 - c.transfer_amount as int,
        );
        match table_lookup(after_sender, c.receiver@) {
            Some(balance) => table_insert(
                after_sender,
                c.receiver@,
                balance + c.transfer_amount as int,
            ),
            None => after_sender,
        }
    }
}

impl Circuit {
    /// Whether the sender has at least the transfer amount.
    pub fn validate_transfer(&self) -> (r: bool)
        ensures
            r == spec_validate_transfer(*self),
    {
        match self.inputs.get(&self.sender) {
            Some(sender_balance) => sender_balance >= self.transfer_amount,
            None => false,
        }
    }

    /// Moves the transfer amount from the sender's balance to the
    /// receiver's, when the transfer is valid. Advisory only: the
    /// compiler reads the balances as they were declared.
    pub fn execute_transfer(&mut self)
        requires
            spec_validate_transfer(*old(self)) ==> {
                let new_sender = table_lookup(old(self).inputs@, old(self).sender@)->Some_0
                    - old(self).transfer_amount as int;
                let after_sender = table_insert(old(self).inputs@, old(self).sender@, new_sender);
                &&& i32::MIN <= new_sender <= i32::MAX
                &&& (table_lookup(after_sender, old(self).receiver@) is Some ==> i32::MIN
                    <= table_lookup(after_sender, old(self).receiver@)->Some_0 + old(
                    self,
                ).transfer_amount as int <= i32::MAX)
            },
        ensures
            final(self).inputs@ == spec_transfer_inputs(*old(self)),
            final(self).name == old(self).name,
            final(self).outputs == old(self).outputs,
            final(self).gates == old(self).gates,
            final(self).sender == old(self).sender,
            final(self).receiver == old(self).receiver,
            final(self).transfer_amount == old(self).transfer_amount,
    {
        if self.validate_transfer() {
            let sender_name = self.sender.clone();
            let receiver_name = self.receiver.clone();
            if let Some(sender_balance) = self.inputs.get(&sender_name) {
                self.inputs.insert(sender_name.as_str(), sender_balance - self.transfer_amount);
            }
            if let Some(receiver_balance) = self.inputs.get(&receiver_name) {
                self.inputs.insert(
                    receiver_name.as_str(),
                    receiver_balance + self.transfer_amount,
                );
            }
        }
    }
}

} // verus!
