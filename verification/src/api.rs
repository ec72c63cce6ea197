//! Records exchanged with the transaction-submission surface.
//!
//! The surface itself (routing, JSON, the mempool behind it) lives
//! outside the library; these are the plain shapes it trades in. Field
//! elements travel as decimal strings, proofs as compressed bytes.

use vstd::prelude::*;

verus! {

/// A transaction submitted for inclusion.
pub struct CreateTransactionRequest {
    pub old_root: String,
    pub new_root: String,
    pub nullifier: String,
    pub commitment: String,
    pub proof: Vec<u8>,
}

/// What the surface reports back for a transaction.
pub struct TransactionResponse {
    pub nullifier: String,
    pub status: String,
}

} // verus!
