//! A small zk-SNARK toolchain: arithmetic circuits are flattened into a
//! rank-1 constraint system (R1CS), a witness is computed for every wire,
//! and a Groth16 proof over BLS12-381 is produced and checked against the
//! declared public inputs.

pub mod api;
pub mod circuit;
pub mod field;
pub mod laws;
pub mod parser;
pub mod r1cs;
pub mod satisfaction;
pub mod snark;
pub mod wiremap;
pub mod witness;
