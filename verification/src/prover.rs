//! Paths to the proving artifacts of the zero-knowledge circuit: the
//! proving key and the witness-generator module. The proving itself is a
//! black-box cryptographic operation outside this library.

use vstd::prelude::*;

verus! {

/// Where the circuit's proving key and witness generator live on disk.
#[derive(Clone, Debug)]
pub struct ProverPath {
    /// Path of the Groth16 proving key.
    pub zkey: String,
    /// Path of the witness-generator module.
    pub wasm: String,
}

impl ProverPath {
    /// Builds the path pair.
    pub fn new(zkey: String, wasm: String) -> (r: ProverPath)
        ensures
            r.zkey == zkey,
            r.wasm == wasm,
    {
        ProverPath { zkey, wasm }
    }
}

} // verus!
