//! One sovereign case end to end: the frugal decision, the manager's delegation, a worker that
//! yields on cold memory, the proof pack, the manager's pointer, and node validation.

use vstd::prelude::*;

use crate::decision::{gate_run, gate_verdict, BudgetContract, ErrorContractQ16, GateDecision, GateInputs, ProposalEnvelope, Verdict};
use crate::federation::{
    AcceptanceVerdict, BasicPointerValidator, FederationView, PointerClass, PointerPolicy, PointerValidator,
};
use crate::ids::{BudgetAmount, CaseId, Cid, NodeId, PointerAlias, ReceiptCid, Signature};
use crate::manager::{case_alias, intake_worker, BudgetState, DemoManagerPlane, ManagedCase, ManagerInput, ManagerOutput, ManagerPlane};
use crate::runtime::{run, Contract, DeterminismProfile, ExecutionTarget, SovereignRuntime};
use crate::session::{ProofPack, Session, SessionView};
use crate::storage::{AtomBody, AtomHeader, AtomKind, AtomSpace, InMemoryAtomSpace, StatePointer, UniversalAtom};
use crate::text::{canonical_hash, hash_three, hash_two};
use crate::transcript::{cid_texts, ComputeAction, ProofMode, StepAction, StepDecision};
use crate::worker::{WorkerAbi, WorkerError, WorkerHostEnv, WorkerResult, WorkerYield};
use crate::manager_app::demo_domain::utf8_lossy;

verus! {

/// A contract that runs one worker on one task, then commits.
#[derive(Debug)]
pub struct DemoContract {
    pub worker_cid: Cid,
    pub task_cid: Cid,
}

impl Contract for DemoContract {
    open spec fn decide(&self, view: SessionView) -> StepDecision {
        if view.transcript_len == 0 {
            StepDecision::Continue(
                StepAction::Compute(ComputeAction::RunWorker { worker_cid: self.worker_cid, task_cid: self.task_cid }),
            )
        } else {
            StepDecision::Commit
        }
    }

    open spec fn price(&self, action: StepAction, view: SessionView) -> u64 {
        5
    }

    /// The worker's task while the transcript is empty, then a commit.
    fn eval_step(&self, session: &SessionView) -> (d: StepDecision) {
        if session.transcript_len == 0 {
            StepDecision::Continue(
                StepAction::Compute(
                    ComputeAction::RunWorker { worker_cid: self.worker_cid.clone(), task_cid: self.task_cid.clone() },
                ),
            )
        } else {
            StepDecision::Commit
        }
    }

    /// Every step costs five.
    fn cost_of(&self, action: &StepAction, session: &SessionView) -> (c: u64) {
        5
    }

    /// A wasm contract that uses no user input, time oracle or external fetch.
    fn determinism_profile(&self) -> (p: DeterminismProfile)
        ensures
            p == (DeterminismProfile {
                fixed_point_only: false,
                allow_user_input: false,
                allow_time_oracle: false,
                allow_external_fetch: false,
                execution_target: ExecutionTarget::Wasm { abi_version: 1 },
            }),
    {
        DeterminismProfile {
            fixed_point_only: false,
            allow_user_input: false,
            allow_time_oracle: false,
            allow_external_fetch: false,
            execution_target: ExecutionTarget::Wasm { abi_version: 1 },
        }
    }
}

/// A worker that needs one atom: it yields while the atom is cold and completes once it is hot.
#[derive(Debug)]
pub struct YieldingWorker {
    pub required_atom_cid: Cid,
    pub pending_continuation: Option<Cid>,
}

/// The continuation of a yielding worker on a task: the hash of task and atom.
pub open spec fn yield_continuation(task: Seq<char>, atom: Seq<char>) -> Seq<char> {
    "cid:continuation:"@ + canonical_hash(seq![task, atom])
}

/// The receipt of a yielding worker on a task over atom bytes.
pub open spec fn yield_receipt(task: Seq<char>, bytes: Seq<u8>) -> Seq<char> {
    "cid:receipt:"@ + canonical_hash(seq![task, utf8_lossy(bytes), "worker:yielding:v1"@])
}

impl YieldingWorker {
    /// A worker for the atom, with nothing pending.
    pub fn new(required_atom_cid: Cid) -> (w: Self)
        ensures
            w.required_atom_cid == required_atom_cid,
            w.pending_continuation is None,
    {
        YieldingWorker { required_atom_cid, pending_continuation: None }
    }

    /// The continuation this worker yields with on the task.
    pub fn continuation_for(&self, task_cid: &Cid) -> (c: Cid)
        ensures
            c@ == yield_continuation(task_cid@, self.required_atom_cid@),
    {
        let h = hash_two(task_cid.as_str(), self.required_atom_cid.as_str());
        Cid::from_string("cid:continuation:".to_string().concat(h.as_str()))
    }

    /// The receipt of this worker on the task over the atom's bytes.
    pub fn receipt_for(task_cid: &Cid, atom_bytes: &[u8]) -> (r: ReceiptCid)
        ensures
            r@ == yield_receipt(task_cid@, atom_bytes@),
    {
        let text = crate::manager_app::demo_domain::lossy_text(atom_bytes);
        let h = hash_three(task_cid.as_str(), text.as_str(), "worker:yielding:v1");
        ReceiptCid::from_string("cid:receipt:".to_string().concat(h.as_str()))
    }
}

impl WorkerAbi for YieldingWorker {
    /// Spends two gas and reads the atom: a receipt if it is available, else a yield naming it.
    fn execute<E: WorkerHostEnv>(&mut self, task_cid: &Cid, env: &mut E) -> (r: WorkerResult)
        ensures
            old(env).gas() < 2 ==> r == WorkerResult::Fail(WorkerError::InternalFailure) && *final(self) == *old(self),
            old(env).gas() >= 2 ==> match old(env).readable(old(self).required_atom_cid@) {
                Some(b) => (r matches WorkerResult::Complete(c) && c@ == yield_receipt(task_cid@, b))
                    && *final(self) == *old(self),
                None => {
                    &&& r matches WorkerResult::Yield(y)
                    &&& cid_texts(y.missing_cids@) == seq![old(self).required_atom_cid@]
                    &&& y.continuation_cid@ == yield_continuation(task_cid@, old(self).required_atom_cid@)
                    &&& *final(self) == (YieldingWorker { pending_continuation: Some(y.continuation_cid), ..*old(self) })
                },
            },
    {
        if env.consume_gas(2).is_err() {
            return WorkerResult::Fail(WorkerError::InternalFailure);
        }
        match env.request_atom(&self.required_atom_cid) {
            Ok(bytes) => WorkerResult::Complete(Self::receipt_for(task_cid, bytes.as_slice())),
            Err(_) => {
                let continuation = self.continuation_for(task_cid);
                self.pending_continuation = Some(continuation.clone());
                let mut missing: Vec<Cid> = Vec::new();
                missing.push(self.required_atom_cid.clone());
                assert(cid_texts(missing@) =~= seq![old(self).required_atom_cid@]);
                WorkerResult::Yield(WorkerYield { missing_cids: missing, continuation_cid: continuation })
            },
        }
    }

    /// Spends one gas; resumes only the pending continuation, completing on task
    /// `cid:task:one` once the atom is available.
    fn resume<E: WorkerHostEnv>(&mut self, continuation_cid: &Cid, env: &mut E) -> (r: WorkerResult)
        ensures
            old(env).gas() < 1 ==> r == WorkerResult::Fail(WorkerError::InternalFailure) && *final(self) == *old(self),
            old(env).gas() >= 1 && !(old(self).pending_continuation matches Some(p) && p@ == continuation_cid@) ==> r
                == WorkerResult::Fail(WorkerError::InvalidTask) && *final(self) == *old(self),
            old(env).gas() >= 1 && (old(self).pending_continuation matches Some(p) && p@ == continuation_cid@) ==> match old(
                env,
            ).readable(old(self).required_atom_cid@) {
                Some(b) => (r matches WorkerResult::Complete(c) && c@ == yield_receipt("cid:task:one"@, b))
                    && *final(self) == (YieldingWorker { pending_continuation: None, ..*old(self) }),
                None => r == WorkerResult::Fail(WorkerError::InternalFailure) && *final(self) == *old(self),
            },
    {
        if env.consume_gas(1).is_err() {
            return WorkerResult::Fail(WorkerError::InternalFailure);
        }
        let pending_matches = match &self.pending_continuation {
            Some(p) => p.same(continuation_cid),
            None => false,
        };
        if !pending_matches {
            return WorkerResult::Fail(WorkerError::InvalidTask);
        }
        let task_cid = Cid::new("cid:task:one");
        match env.request_atom(&self.required_atom_cid) {
            Ok(bytes) => {
                self.pending_continuation = None;
                WorkerResult::Complete(Self::receipt_for(&task_cid, bytes.as_slice()))
            },
            Err(_) => WorkerResult::Fail(WorkerError::InternalFailure),
        }
    }
}

/// What the sovereign demo produced at each step.
#[derive(Debug)]
pub struct SovereignDemoReport {
    pub gate: GateDecision,
    pub delegated: ManagerOutput,
    pub proof: ProofPack,
    pub pointer_output: ManagerOutput,
    pub federation_verdict: AcceptanceVerdict,
}

fn demo_error_contract() -> (e: ErrorContractQ16)
    ensures
        e.zero_guess_domains@.len() == 1,
        e.zero_guess_domains@[0]@ == "finance"@,
        e.max_questions_per_case == 1,
        e.max_ghosts_per_epoch == 8,
        e.ok_min_q16 == 50000,
        e.reject_max_q16 == 30000,
        e.max_risk_q16 == 10000,
{
    let mut domains: Vec<String> = Vec::new();
    domains.push("finance".to_string());
    ErrorContractQ16 {
        epsilon_q16: 32,
        zero_guess_domains: domains,
        max_questions_per_case: 1,
        max_ghosts_per_epoch: 8,
        ok_min_q16: 50000,
        reject_max_q16: 30000,
        max_risk_q16: 10000,
    }
}

fn demo_federation(ppc: &crate::ids::ProofPackCid) -> (fed: FederationView)
    ensures
        fed.accepted_proof_packs@ == seq![*ppc],
        fed.pointer_policies@.len() == 1,
        fed.pointer_policies@[0].alias_prefix@ == "cases:"@,
        fed.pointer_policies@[0].accepted_authorities@.len() == 1,
        fed.pointer_policies@[0].accepted_authorities@[0]@ == "node-a"@,
        !fed.pointer_policies@[0].allow_forks,
        fed.pointer_policies@[0].require_proof_pack,
{
    let mut authorities: Vec<NodeId> = Vec::new();
    authorities.push(NodeId::new("node-a"));
    let mut policies: Vec<PointerPolicy> = Vec::new();
    policies.push(
        PointerPolicy {
            alias_prefix: "cases:".to_string(),
            class: PointerClass::SharedCase,
            accepted_authorities: authorities,
            requires_quorum: false,
            quorum_size: 0,
            allow_forks: false,
            require_proof_pack: true,
        },
    );
    let mut contracts: Vec<crate::ids::Hash> = Vec::new();
    contracts.push(crate::ids::Hash::new("contract:demo:v6.1"));
    let mut packs: Vec<crate::ids::ProofPackCid> = Vec::new();
    packs.push(ppc.clone());
    assert(packs@ =~= seq![*ppc]);
    FederationView {
        recognized_nodes: Vec::new(),
        accepted_contract_hashes: contracts,
        accepted_proof_packs: packs,
        pointer_policies: policies,
        acceptance_receipts: Vec::new(),
    }
}

/// Runs the sovereign demo: the proposal is decided, the manager delegates the task, the
/// yielding worker runs under the demo contract on a cold atom, the completion moves the
/// manager's pointer, and a node validates the pointer to the proof pack. It stops when the
/// run left no final receipt.
pub fn run_sovereign_demo() -> (r: Result<SovereignDemoReport, String>)
    ensures
        r matches Err(e) ==> e@ == "final receipt cid should be present"@,
        r matches Ok(rep) ==> ({
            &&& rep.gate.verdict == Verdict::Commit
            &&& rep.delegated matches ManagerOutput::Delegate { worker_cid, task_cid }
                && worker_cid@ == intake_worker() && task_cid@ == "cid:task:one"@
            &&& rep.proof.case_id@ == "case-001"@
            &&& rep.proof.contract_hash@ == "contract:demo:v6.1"@
            &&& rep.proof.initial_budget == 60
            &&& rep.proof.final_receipt_cid is Some
            &&& rep.pointer_output matches ManagerOutput::AdvancePointer { alias, head_cid, proof_pack_cid }
                && alias@ == case_alias("case-001"@) && head_cid@ == rep.proof.proof_pack_cid@
                && proof_pack_cid == rep.proof.proof_pack_cid
            &&& rep.federation_verdict == AcceptanceVerdict::Accepted
        }),
{
    let worker_cid = Cid::new("worker:yielding:v1");
    let task_cid = Cid::new("cid:task:one");
    let required_atom_cid = Cid::new("cid:atom:knowledge:one");

    let mut atom_space = InMemoryAtomSpace::default();
    let atom = UniversalAtom {
        header: AtomHeader {
            kind: AtomKind::Task,
            size_bytes: 7,
            producer_hash: crate::ids::Hash::new("producer:demo"),
            signature: Some(Signature::new("sig:demo")),
        },
        links: Vec::new(),
        body: AtomBody::Inline("context".as_bytes_vec()),
    };
    let _ = atom_space.materialize(required_atom_cid.clone(), atom);

    let err = demo_error_contract();
    let budget = BudgetContract {
        max_ram_mb: 512,
        max_vram_mb: 512,
        max_loaded_params_mb: 256,
        max_live_context_tokens: 4096,
        max_rehydrations: 4,
        max_escalations: 1,
        max_hot_atoms: 32,
    };
    let mut required_atoms: Vec<Cid> = Vec::new();
    required_atoms.push(required_atom_cid.clone());
    let mut required_workers: Vec<String> = Vec::new();
    required_workers.push(worker_cid.to_text());
    let proposal = ProposalEnvelope {
        hypothesis_cid: Cid::new("cid:hypothesis:001"),
        score_q16: 54000,
        risk_q16: 5000,
        required_atoms,
        required_workers,
        estimated_ram_mb: 16,
        estimated_vram_mb: 0,
        estimated_params_mb: 4,
        producer_hash: crate::ids::Hash::new("worker:yielding:v1"),
    };
    let inputs = GateInputs {
        domain: "ops",
        has_intent: true,
        has_minimum_evidence: true,
        evidence_anchored: true,
        deterministic_proof: true,
        questions_used: 0,
        ghosts_used_in_epoch: 0,
        escalations_used: 0,
        rehydrations_used: 0,
        live_ram_mb: 64,
        live_vram_mb: 0,
        loaded_params_mb: 0,
        live_context_tokens: 128,
        hot_atoms: 0,
        err: &err,
        budget: &budget,
    };
    let ghost inp = inputs;
    let gate = gate_run(inputs, &proposal);
    proof {
        reveal_strlit("ops");
        reveal_strlit("finance");
        assert(!crate::text::text_listed(err.zero_guess_domains@, "ops"@)) by {
            assert(err.zero_guess_domains@[0]@.len() != ("ops"@).len());
        }
        assert(gate_verdict(inp, proposal) == Verdict::Commit);
    }

    let mut manager = DemoManagerPlane::default();
    manager.cases.insert(
        "case-001".to_string(),
        ManagedCase {
            case_id: CaseId::new("case-001"),
            state_root: Cid::new("cid:state:root:001"),
            current_head_cid: None,
            active_budget: BudgetState {
                gas_remaining: BudgetAmount(40),
                max_parallel_workers: 2,
                max_open_cases: 8,
                max_human_interrupts: 1,
            },
            pending_events: Vec::new(),
            pending_actions: Vec::new(),
            latest_proof_pack_cid: None,
            blocked_on: None,
        },
    );
    proof {
        reveal_strlit("case-001");
    }
    let _ = manager.ingest(ManagerInput::Event(task_cid.clone()));
    let delegated = match manager.evaluate_next("case-001") {
        Ok(o) => o,
        Err(e) => {
            return Err(e);
        },
    };

    let mut session = Session {
        case_id: CaseId::new("case-001"),
        contract_hash: crate::ids::Hash::new("contract:demo:v6.1"),
        initial_budget: 60,
        budget_remaining: 60,
        state_root: Cid::new("cid:state:root:001"),
        proof_mode: ProofMode::AnchoredImmutableRefs,
        transcript: Vec::new(),
        final_receipt_cid: None,
        final_proof_pack_cid: None,
        last_worker_cid: None,
        last_task_cid: None,
        continuation_cids_used: Vec::new(),
        manager_receipt_cids: Vec::new(),
    };
    let contract = DemoContract { worker_cid: worker_cid.clone(), task_cid: task_cid.clone() };
    let proof = {
        let mut runtime: SovereignRuntime<InMemoryAtomSpace, YieldingWorker> = SovereignRuntime::new(&mut atom_space);
        runtime.register_worker(worker_cid.clone(), YieldingWorker::new(required_atom_cid.clone()));
        run(&mut session, &contract, &mut runtime)
    };

    let final_receipt = match &proof.final_receipt_cid {
        Some(c) => c.clone(),
        None => {
            return Err("final receipt cid should be present".to_string());
        },
    };
    let _ = manager.ingest(
        ManagerInput::WorkerCompleted { receipt_cid: final_receipt, proof_pack_cid: proof.proof_pack_cid.clone() },
    );
    let pointer_output = match manager.evaluate_next("case-001") {
        Ok(o) => o,
        Err(e) => {
            return Err(e);
        },
    };

    let previous = StatePointer {
        alias: PointerAlias::new("cases:case-001:latest"),
        prev_head_cid: None,
        head_cid: Cid::new("cid:head:previous"),
        sequence_number: 1,
        authority_id: NodeId::new("node-a"),
        authority_signature: Signature::new("sig-a"),
    };
    let candidate = StatePointer {
        alias: PointerAlias::new("cases:case-001:latest"),
        prev_head_cid: Some(previous.head_cid.clone()),
        head_cid: Cid::new(proof.proof_pack_cid.as_str()),
        sequence_number: 2,
        authority_id: NodeId::new("node-a"),
        authority_signature: Signature::new("sig-a2"),
    };
    let federation = demo_federation(&proof.proof_pack_cid);
    let validator = BasicPointerValidator;
    let federation_verdict = validator.validate_pointer(
        &candidate,
        Some(&previous),
        Some(&proof.proof_pack_cid),
        &federation,
    );
    proof {
        reveal_strlit("cases:case-001:latest");
        reveal_strlit("cases:");
        reveal_strlit(":latest");
        assert(crate::text::is_prefix_of("cases:"@, candidate.alias@)) by {
            assert(candidate.alias@.subrange(0, 6) =~= "cases:"@);
        }
        assert(crate::federation::policy_search(federation.pointer_policies@, candidate.alias@, 0) == Some(0int));
        assert(federation.pointer_policies@[0].accepted_authorities@[0]@ == candidate.authority_id@);
        assert(crate::federation::node_listed(
            federation.pointer_policies@[0].accepted_authorities@,
            candidate.authority_id@,
        ));
        assert(federation.accepted_proof_packs@[0]@ == proof.proof_pack_cid@);
        assert(crate::federation::proof_listed(federation.accepted_proof_packs@, proof.proof_pack_cid@));
        assert("cases:"@ + "case-001"@ + ":latest"@ =~= "cases:case-001:latest"@);
    }
    Ok(SovereignDemoReport { gate, delegated, proof, pointer_output, federation_verdict })
}

} // verus!
