//! The worker ABI: sandboxed workers that yield when memory is cold instead of blocking.

use vstd::prelude::*;

use crate::ids::{Cid, ReceiptCid, Signature};
use crate::storage::PageFault;

verus! {

/// A gas request that the remaining budget could not cover.
#[derive(Debug, Clone, Copy, PartialEq, Eq, Structural)]
pub struct OutOfGas {
    pub required: u64,
    pub available: u64,
}

/// What the host offers a worker: atoms that are hot, and gas.
pub trait WorkerHostEnv {
    /// The gas that remains.
    spec fn gas(&self) -> u64;

    /// The bytes the host hands over for a cid, when the atom is available now.
    spec fn readable(&self, cid: Seq<char>) -> Option<Seq<u8>>;

    /// Hands over the bytes of an available atom, and fails on any other.
    fn request_atom(&mut self, cid: &Cid) -> (r: Result<Vec<u8>, PageFault>)
        ensures
            final(self).gas() == old(self).gas(),
            forall|c: Seq<char>| #[trigger] final(self).readable(c) == old(self).readable(c),
            match old(self).readable(cid@) {
                Some(b) => r matches Ok(v) && v@ == b,
                None => r is Err,
            },
    ;

    /// Takes the gas if enough remains, and nothing otherwise.
    fn consume_gas(&mut self, amount: u64) -> (r: Result<(), OutOfGas>)
        ensures
            old(self).gas() >= amount ==> r is Ok && final(self).gas() == old(self).gas() - amount,
            old(self).gas() < amount ==> r is Err && final(self).gas() == old(self).gas(),
            forall|c: Seq<char>| #[trigger] final(self).readable(c) == old(self).readable(c),
    ;
}

/// Why a worker failed.
#[derive(Debug, Clone, Copy, PartialEq, Eq, Structural)]
pub enum WorkerError {
    InvalidTask,
    InternalFailure,
    InvalidWitness,
}

/// The name of a worker error.
pub open spec fn worker_error_label(e: WorkerError) -> Seq<char> {
    match e {
        WorkerError::InvalidTask => "InvalidTask"@,
        WorkerError::InternalFailure => "InternalFailure"@,
        WorkerError::InvalidWitness => "InvalidWitness"@,
    }
}

impl WorkerError {
    /// The name of the error.
    pub fn label(&self) -> (s: &'static str)
        ensures
            s@ == worker_error_label(*self),
    {
        match self {
            WorkerError::InvalidTask => "InvalidTask",
            WorkerError::InternalFailure => "InternalFailure",
            WorkerError::InvalidWitness => "InvalidWitness",
        }
    }
}

/// A pause: the atoms the worker misses, and where to resume.
#[derive(Debug, Clone)]
pub struct WorkerYield {
    pub missing_cids: Vec<Cid>,
    pub continuation_cid: Cid,
}

/// How a worker run ended: a receipt, a yield, or a failure.
#[derive(Debug, Clone)]
pub enum WorkerResult {
    Complete(ReceiptCid),
    Yield(WorkerYield),
    Fail(WorkerError),
}

/// A worker: it runs a task, and resumes a continuation after a yield.
/// Workers reach the host only through the environment, so they never add gas.
pub trait WorkerAbi {
    fn execute<E: WorkerHostEnv>(&mut self, task_cid: &Cid, env: &mut E) -> (r: WorkerResult)
        ensures
            final(env).gas() <= old(env).gas(),
    ;

    fn resume<E: WorkerHostEnv>(&mut self, continuation_cid: &Cid, env: &mut E) -> (r: WorkerResult)
        ensures
            final(env).gas() <= old(env).gas(),
    ;
}

/// The manifest of a worker.
#[derive(Debug, Clone, Copy, PartialEq, Eq, Structural)]
pub enum QuantizationLevel {
    Q16,
    Fp16,
    Int8,
}

/// What a worker may ask of the host.
#[derive(Debug, Clone, Copy, PartialEq, Eq, Structural)]
pub enum Capability {
    RequestAtom,
    ConsumeGas,
    YieldOnColdMemory,
}

/// The determinism promises of a worker.
#[derive(Debug, Clone, Copy, PartialEq, Eq, Structural)]
pub struct DeterminismProfile {
    pub no_syscalls: bool,
    pub no_hidden_entropy: bool,
    pub yield_on_page_fault: bool,
}

/// What silicon reported for a task: a result vector and the hardware's signature.
#[derive(Debug, Clone)]
pub struct SiliconReceipt {
    pub task_cid: Cid,
    pub result_vector: Vec<i32>,
    pub hardware_signature: Signature,
}

/// The sandbox a worker runs in.
#[derive(Debug, Default, Clone, Copy)]
pub struct WasmSandbox;

impl WasmSandbox {
    /// What the sandbox promises.
    pub fn describe(&self) -> (s: &'static str)
        ensures
            s@ == "placeholder wasm sandbox: no syscalls, host-mediated atom access"@,
    {
        "placeholder wasm sandbox: no syscalls, host-mediated atom access"
    }
}

} // verus!
