//! The manager plane: typed inputs and outputs, an event loop instead of a chat.

use vstd::prelude::*;

use crate::federation::PointerFork;
use crate::ids::{BudgetAmount, CaseId, Cid, PointerAlias, ProofPackCid, ReasonCode, ReceiptCid};
use crate::keyed_map::KeyedMap;
use crate::storage::StatePointer;
use crate::text::{debug_quoted, debug_quoted_text, decimal, decimal_text, wrapped_debug, wrapped_debug_text};

verus! {

/// The budget a case may still use.
#[derive(Debug, Clone, Copy, PartialEq, Eq, Structural)]
pub struct BudgetState {
    pub gas_remaining: BudgetAmount,
    pub max_parallel_workers: u32,
    pub max_open_cases: u32,
    pub max_human_interrupts: u32,
}

/// What a case waits for.
#[derive(Debug, Clone, Copy, PartialEq, Eq, Structural)]
pub enum BlockReason {
    WaitingForWorker,
    WaitingForEvidence,
    WaitingForHumanWitness,
    WaitingForBudget,
    WaitingForPolicy,
    WaitingForForkResolution,
}

impl BlockReason {
    /// The name of the reason.
    pub fn label(&self) -> (s: &'static str)
        ensures
            s@ == block_reason_label(*self),
    {
        match self {
            BlockReason::WaitingForWorker => "WaitingForWorker",
            BlockReason::WaitingForEvidence => "WaitingForEvidence",
            BlockReason::WaitingForHumanWitness => "WaitingForHumanWitness",
            BlockReason::WaitingForBudget => "WaitingForBudget",
            BlockReason::WaitingForPolicy => "WaitingForPolicy",
            BlockReason::WaitingForForkResolution => "WaitingForForkResolution",
        }
    }
}

/// The name of a block reason.
pub open spec fn block_reason_label(r: BlockReason) -> Seq<char> {
    match r {
        BlockReason::WaitingForWorker => "WaitingForWorker"@,
        BlockReason::WaitingForEvidence => "WaitingForEvidence"@,
        BlockReason::WaitingForHumanWitness => "WaitingForHumanWitness"@,
        BlockReason::WaitingForBudget => "WaitingForBudget"@,
        BlockReason::WaitingForPolicy => "WaitingForPolicy"@,
        BlockReason::WaitingForForkResolution => "WaitingForForkResolution"@,
    }
}

/// A case under management.
#[derive(Debug)]
pub struct ManagedCase {
    pub case_id: CaseId,
    pub state_root: Cid,
    pub current_head_cid: Option<Cid>,
    pub active_budget: BudgetState,
    pub pending_events: Vec<Cid>,
    pub pending_actions: Vec<String>,
    pub latest_proof_pack_cid: Option<ProofPackCid>,
    pub blocked_on: Option<BlockReason>,
}

/// What reaches the manager.
#[derive(Debug, Clone)]
pub enum ManagerInput {
    Event(Cid),
    WorkerCompleted { receipt_cid: ReceiptCid, proof_pack_cid: ProofPackCid },
    PointerAdvanced(StatePointer),
    BudgetTick(BudgetState),
    Deadline(String),
    Witness(Cid),
    ForkDetected(PointerFork),
    PolicyUpdate(String),
}

/// What the manager decides.
#[derive(Debug, Clone)]
pub enum ManagerOutput {
    Delegate { worker_cid: Cid, task_cid: Cid },
    RequestEvidence { cid: Cid },
    LoadExpert { expert_id: String, input_set_cid: Cid },
    Escalate { queue: String, reason_code: ReasonCode },
    AskHumanWitness { witness_kind: String, prompt_cid: Cid },
    AdvancePointer { alias: PointerAlias, head_cid: Cid, proof_pack_cid: ProofPackCid },
    Reject { reason_code: ReasonCode },
    NoOp,
}

/// The receipts the manager leaves.
#[derive(Debug, Clone)]
pub enum ManagerReceipt {
    Delegated { case_id: CaseId, worker_cid: Cid, task_cid: Cid },
    EvidenceRequested { case_id: CaseId, cid: Cid },
    Escalated { case_id: CaseId, queue: String, reason_code: ReasonCode },
    HumanWitnessRequested { case_id: CaseId, witness_kind: String, prompt_cid: Cid },
    PointerAdvanced { case_id: CaseId, alias: PointerAlias, head_cid: Cid },
    ManagerRejected { case_id: CaseId, reason_code: ReasonCode },
}

/// A worker as the manager sees it.
pub trait Worker {
    fn id(&self) -> &str;

    fn capabilities(&self) -> Vec<String>;

    fn execute(&self, task_cid: &Cid) -> Result<Cid, String>;
}

/// The control plane: it takes inputs in, and decides the next output of a case.
pub trait ManagerPlane {
    fn ingest(&mut self, input: ManagerInput) -> Result<(), String>;

    fn evaluate_next(&mut self, case_id: &str) -> Result<ManagerOutput, String>;
}

/// A manager with cases by id and an inbox of inputs.
#[derive(Debug)]
pub struct DemoManagerPlane {
    pub cases: KeyedMap<String, ManagedCase>,
    pub inbox: Vec<ManagerInput>,
}

impl Default for DemoManagerPlane {
    fn default() -> (m: Self)
        ensures
            m.cases@ == Map::<Seq<char>, ManagedCase>::empty(),
            m.inbox@.len() == 0,
    {
        DemoManagerPlane { cases: KeyedMap::new(), inbox: Vec::new() }
    }
}

/// The worker that intake events are delegated to.
pub open spec fn intake_worker() -> Seq<char> {
    "worker:document-intake:v7"@
}

/// The alias of a case's latest head.
pub open spec fn case_alias(case_id: Seq<char>) -> Seq<char> {
    "cases:"@ + case_id + ":latest"@
}

/// The manager is left as it was.
pub open spec fn manager_unchanged(before: DemoManagerPlane, after: DemoManagerPlane) -> bool {
    after.cases@ == before.cases@ && after.inbox@ == before.inbox@
}

/// A manager output as `Debug` writes it.
pub open spec fn output_debug(o: ManagerOutput) -> Seq<char> {
    match o {
        ManagerOutput::Delegate { worker_cid, task_cid } => "Delegate { worker_cid: "@ + wrapped_debug("Cid"@, worker_cid@)
            + ", task_cid: "@ + wrapped_debug("Cid"@, task_cid@) + " }"@,
        ManagerOutput::RequestEvidence { cid } => "RequestEvidence { cid: "@ + wrapped_debug("Cid"@, cid@) + " }"@,
        ManagerOutput::LoadExpert { expert_id, input_set_cid } => "LoadExpert { expert_id: "@ + debug_quoted(expert_id@)
            + ", input_set_cid: "@ + wrapped_debug("Cid"@, input_set_cid@) + " }"@,
        ManagerOutput::Escalate { queue, reason_code } => "Escalate { queue: "@ + debug_quoted(queue@) + ", reason_code: "@
            + reason_code_debug(reason_code) + " }"@,
        ManagerOutput::AskHumanWitness { witness_kind, prompt_cid } => "AskHumanWitness { witness_kind: "@ + debug_quoted(
            witness_kind@,
        ) + ", prompt_cid: "@ + wrapped_debug("Cid"@, prompt_cid@) + " }"@,
        ManagerOutput::AdvancePointer { alias, head_cid, proof_pack_cid } => "AdvancePointer { alias: "@ + wrapped_debug(
            "PointerAlias"@,
            alias@,
        ) + ", head_cid: "@ + wrapped_debug("Cid"@, head_cid@) + ", proof_pack_cid: "@ + wrapped_debug(
            "ProofPackCid"@,
            proof_pack_cid@,
        ) + " }"@,
        ManagerOutput::Reject { reason_code } => "Reject { reason_code: "@ + reason_code_debug(reason_code) + " }"@,
        ManagerOutput::NoOp => "NoOp"@,
    }
}

/// A reason code as `Debug` writes it: `ReasonCode(7)`.
pub open spec fn reason_code_debug(c: ReasonCode) -> Seq<char> {
    "ReasonCode("@ + decimal(c.0 as nat) + ")"@
}

fn reason_code_debug_text(c: ReasonCode) -> (s: String)
    ensures
        s@ == reason_code_debug(c),
{
    "ReasonCode(".to_string().concat(decimal_text(c.0 as u64).as_str()).concat(")")
}

impl ManagerOutput {
    /// The output as `Debug` writes it.
    pub fn debug_text(&self) -> (s: String)
        ensures
            s@ == output_debug(*self),
    {
        match self {
            ManagerOutput::Delegate { worker_cid, task_cid } => "Delegate { worker_cid: ".to_string().concat(
                wrapped_debug_text("Cid", worker_cid.as_str()).as_str(),
            ).concat(", task_cid: ").concat(wrapped_debug_text("Cid", task_cid.as_str()).as_str()).concat(" }"),
            ManagerOutput::RequestEvidence { cid } => "RequestEvidence { cid: ".to_string().concat(
                wrapped_debug_text("Cid", cid.as_str()).as_str(),
            ).concat(" }"),
            ManagerOutput::LoadExpert { expert_id, input_set_cid } => "LoadExpert { expert_id: ".to_string().concat(
                debug_quoted_text(expert_id.as_str()).as_str(),
            ).concat(", input_set_cid: ").concat(wrapped_debug_text("Cid", input_set_cid.as_str()).as_str()).concat(" }"),
            ManagerOutput::Escalate { queue, reason_code } => "Escalate { queue: ".to_string().concat(
                debug_quoted_text(queue.as_str()).as_str(),
            ).concat(", reason_code: ").concat(reason_code_debug_text(*reason_code).as_str()).concat(" }"),
            ManagerOutput::AskHumanWitness { witness_kind, prompt_cid } => "AskHumanWitness { witness_kind: ".to_string().concat(
                debug_quoted_text(witness_kind.as_str()).as_str(),
            ).concat(", prompt_cid: ").concat(wrapped_debug_text("Cid", prompt_cid.as_str()).as_str()).concat(" }"),
            ManagerOutput::AdvancePointer { alias, head_cid, proof_pack_cid } => "AdvancePointer { alias: ".to_string().concat(
                wrapped_debug_text("PointerAlias", alias.as_str()).as_str(),
            ).concat(", head_cid: ").concat(wrapped_debug_text("Cid", head_cid.as_str()).as_str()).concat(
                ", proof_pack_cid: ",
            ).concat(wrapped_debug_text("ProofPackCid", proof_pack_cid.as_str()).as_str()).concat(" }"),
            ManagerOutput::Reject { reason_code } => "Reject { reason_code: ".to_string().concat(
                reason_code_debug_text(*reason_code).as_str(),
            ).concat(" }"),
            ManagerOutput::NoOp => "NoOp".to_string(),
        }
    }
}

/// The alias of a case's latest head.
pub fn case_alias_text(case_id: &str) -> (s: String)
    ensures
        s@ == case_alias(case_id@),
{
    "cases:".to_string().concat(case_id).concat(":latest")
}

impl ManagerPlane for DemoManagerPlane {
    /// Puts the input at the end of the inbox.
    fn ingest(&mut self, input: ManagerInput) -> (r: Result<(), String>)
        ensures
            r is Ok,
            final(self).inbox@ == old(self).inbox@.push(input),
            final(self).cases@ == old(self).cases@,
    {
        self.inbox.push(input);
        Ok(())
    }

    /// A case with a head has nothing to do; otherwise the last input decides: an event is
    /// delegated to the intake worker, a completion advances the case's pointer to its proof pack.
    fn evaluate_next(&mut self, case_id: &str) -> (r: Result<ManagerOutput, String>)
        ensures
            r is Err <==> !old(self).cases@.contains_key(case_id@),
            r is Ok ==> ({
                let case = old(self).cases@[case_id@];
                if case.current_head_cid is Some || old(self).inbox@.len() == 0 {
                    r == Ok::<ManagerOutput, String>(ManagerOutput::NoOp) && manager_unchanged(*old(self), *final(self))
                } else {
                    match old(self).inbox@.last() {
                        ManagerInput::Event(task) => {
                            &&& r matches Ok(ManagerOutput::Delegate { worker_cid, task_cid }) && worker_cid@ == intake_worker() && task_cid == task
                            &&& manager_unchanged(*old(self), *final(self))
                        },
                        ManagerInput::WorkerCompleted { proof_pack_cid: p, .. } => {
                            &&& r matches Ok(ManagerOutput::AdvancePointer { alias, head_cid, proof_pack_cid })
                                && alias@ == case_alias(case_id@) && head_cid@ == p@ && proof_pack_cid == p
                            &&& final(self).cases@ == old(self).cases@.insert(
                                case_id@,
                                ManagedCase { latest_proof_pack_cid: Some(p), ..case },
                            )
                            &&& final(self).inbox@ == old(self).inbox@
                        },
                        _ => r == Ok::<ManagerOutput, String>(ManagerOutput::NoOp) && manager_unchanged(*old(self), *final(self)),
                    }
                }
            }),
            r is Err ==> manager_unchanged(*old(self), *final(self)),
            r matches Err(e) ==> e@ == "unknown case"@,
    {
        let has_head = match self.cases.get(case_id) {
            None => {
                return Err("unknown case".to_string());
            },
            Some(case) => case.current_head_cid.is_some(),
        };
        if has_head {
            return Ok(ManagerOutput::NoOp);
        }
        let n = self.inbox.len();
        if n == 0 {
            return Ok(ManagerOutput::NoOp);
        }
        match &self.inbox[n - 1] {
            ManagerInput::Event(task_cid) => {
                let worker = "worker:document-intake:v7";
                proof {
                    reveal_strlit("worker:document-intake:v7");
                }
                Ok(ManagerOutput::Delegate { worker_cid: Cid::new(worker), task_cid: task_cid.clone() })
            },
            ManagerInput::WorkerCompleted { proof_pack_cid, .. } => {
                let ppc = proof_pack_cid.clone();
                let alias = PointerAlias::from_string(case_alias_text(case_id));
                let head_cid = Cid::new(ppc.as_str());
                let key = case_id.to_string();
                match self.cases.remove(case_id) {
                    Some(mut case) => {
                        case.latest_proof_pack_cid = Some(ppc.clone());
                        self.cases.insert(key, case);
                        proof {
                            assert(self.cases@ =~= old(self).cases@.insert(case_id@, ManagedCase {
                                latest_proof_pack_cid: Some(ppc),
                                ..old(self).cases@[case_id@]
                            }));
                        }
                    },
                    None => {},
                }
                Ok(ManagerOutput::AdvancePointer { alias, head_cid, proof_pack_cid: ppc })
            },
            _ => Ok(ManagerOutput::NoOp),
        }
    }
}

} // verus!
