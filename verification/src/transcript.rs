//! Steps, receipts, and the hash-chained transcript of a session.

use vstd::prelude::*;

use crate::ids::{CaseId, Cid, ProofPackCid, ReceiptCid};
use crate::text::{
    bar_join, canonical_hash, canonical_join, debug_quoted, debug_quoted_text, hash_one, hash_three, hash_two, join_texts,
    join_with, views, wrapped_debug, wrapped_debug_text,
};

verus! {

/// A compute action: run a worker on a task.
#[derive(Debug, Clone)]
pub enum ComputeAction {
    RunWorker { worker_cid: Cid, task_cid: Cid },
}

/// The action of one step.
#[derive(Debug, Clone)]
pub enum StepAction {
    Compute(ComputeAction),
    Materialize { cid: Cid },
    Witness { witness_kind: String, prompt_cid: Cid },
}

/// What a contract decides after looking at a session.
#[derive(Debug, Clone)]
pub enum StepDecision {
    Commit,
    Continue(StepAction),
    Reject(RejectReason),
}

/// Why a case was rejected.
#[derive(Debug, Clone, Copy, PartialEq, Eq, Structural)]
pub enum RejectReason {
    OutOfBudget,
    InvalidTranscript,
    InvalidWitness,
    InternalExecutionFailure,
    MissingMinimumEvidence,
}

/// How a case ended.
#[derive(Debug, Clone, PartialEq, Eq)]
pub enum FinalOutcome {
    Commit { output_cid: Cid },
    Reject { reason: RejectReason },
}

/// An outcome as plain values.
pub enum OutcomeModel {
    Commit { output: Seq<char> },
    Reject { reason: RejectReason },
}

impl View for FinalOutcome {
    type V = OutcomeModel;

    open spec fn view(&self) -> OutcomeModel {
        match self {
            FinalOutcome::Commit { output_cid } => OutcomeModel::Commit { output: output_cid@ },
            FinalOutcome::Reject { reason } => OutcomeModel::Reject { reason: *reason },
        }
    }
}

/// How the proof refers to what it used.
#[derive(Debug, Clone, Copy, PartialEq, Eq, Structural)]
pub enum ProofMode {
    AnchoredImmutableRefs,
}

/// The receipt of one event of a step.
#[derive(Debug)]
pub enum StepReceipt {
    ProposalCreated { proposal_cid: Cid, producer_hash: crate::ids::Hash },
    AtomMaterialized { atom_cid: Cid },
    HumanWitnessed { witness_kind: String, answer_cid: Cid },
    WorkerYielded { worker_cid: Cid, task_cid: Cid, missing_cids: Vec<Cid>, continuation_cid: Cid },
    WorkerCompleted { worker_cid: Cid, task_cid: Cid, receipt_cid: ReceiptCid },
}

/// A receipt as plain text values.
pub enum ReceiptModel {
    ProposalCreated { proposal: Seq<char>, producer: Seq<char> },
    AtomMaterialized { atom: Seq<char> },
    HumanWitnessed { kind: Seq<char>, answer: Seq<char> },
    WorkerYielded { worker: Seq<char>, task: Seq<char>, missing: Seq<Seq<char>>, continuation: Seq<char> },
    WorkerCompleted { worker: Seq<char>, task: Seq<char>, receipt: Seq<char> },
}

/// The texts of a list of cids.
pub open spec fn cid_texts(cids: Seq<Cid>) -> Seq<Seq<char>> {
    cids.map_values(|c: Cid| c@)
}

impl View for StepReceipt {
    type V = ReceiptModel;

    open spec fn view(&self) -> ReceiptModel {
        match self {
            StepReceipt::ProposalCreated { proposal_cid, producer_hash } => ReceiptModel::ProposalCreated {
                proposal: proposal_cid@,
                producer: producer_hash@,
            },
            StepReceipt::AtomMaterialized { atom_cid } => ReceiptModel::AtomMaterialized { atom: atom_cid@ },
            StepReceipt::HumanWitnessed { witness_kind, answer_cid } => ReceiptModel::HumanWitnessed {
                kind: witness_kind@,
                answer: answer_cid@,
            },
            StepReceipt::WorkerYielded { worker_cid, task_cid, missing_cids, continuation_cid } => ReceiptModel::WorkerYielded {
                worker: worker_cid@,
                task: task_cid@,
                missing: cid_texts(missing_cids@),
                continuation: continuation_cid@,
            },
            StepReceipt::WorkerCompleted { worker_cid, task_cid, receipt_cid } => ReceiptModel::WorkerCompleted {
                worker: worker_cid@,
                task: task_cid@,
                receipt: receipt_cid@,
            },
        }
    }
}

/// The name of a reject reason, as `Debug` writes it.
pub open spec fn reject_reason_debug(r: RejectReason) -> Seq<char> {
    match r {
        RejectReason::OutOfBudget => "OutOfBudget"@,
        RejectReason::InvalidTranscript => "InvalidTranscript"@,
        RejectReason::InvalidWitness => "InvalidWitness"@,
        RejectReason::InternalExecutionFailure => "InternalExecutionFailure"@,
        RejectReason::MissingMinimumEvidence => "MissingMinimumEvidence"@,
    }
}

/// An outcome as `Debug` writes it.
pub open spec fn outcome_debug(o: OutcomeModel) -> Seq<char> {
    match o {
        OutcomeModel::Commit { output } => "Commit { output_cid: "@ + wrapped_debug("Cid"@, output) + " }"@,
        OutcomeModel::Reject { reason } => "Reject { reason: "@ + reject_reason_debug(reason) + " }"@,
    }
}

/// A list of cids as `Debug` writes it: `[Cid("a"), Cid("b")]`.
pub open spec fn cid_list_debug(cids: Seq<Seq<char>>) -> Seq<char> {
    "["@ + join_with(cids.map_values(|c: Seq<char>| wrapped_debug("Cid"@, c)), ", "@) + "]"@
}

/// A receipt as `Debug` writes it.
pub open spec fn receipt_debug(r: ReceiptModel) -> Seq<char> {
    match r {
        ReceiptModel::ProposalCreated { proposal, producer } => "ProposalCreated { proposal_cid: "@ + wrapped_debug(
            "Cid"@,
            proposal,
        ) + ", producer_hash: "@ + wrapped_debug("Hash"@, producer) + " }"@,
        ReceiptModel::AtomMaterialized { atom } => "AtomMaterialized { atom_cid: "@ + wrapped_debug("Cid"@, atom) + " }"@,
        ReceiptModel::HumanWitnessed { kind, answer } => "HumanWitnessed { witness_kind: "@ + debug_quoted(kind)
            + ", answer_cid: "@ + wrapped_debug("Cid"@, answer) + " }"@,
        ReceiptModel::WorkerYielded { worker, task, missing, continuation } => "WorkerYielded { worker_cid: "@
            + wrapped_debug("Cid"@, worker) + ", task_cid: "@ + wrapped_debug("Cid"@, task) + ", missing_cids: "@
            + cid_list_debug(missing) + ", continuation_cid: "@ + wrapped_debug("Cid"@, continuation) + " }"@,
        ReceiptModel::WorkerCompleted { worker, task, receipt } => "WorkerCompleted { worker_cid: "@ + wrapped_debug(
            "Cid"@,
            worker,
        ) + ", task_cid: "@ + wrapped_debug("Cid"@, task) + ", receipt_cid: "@ + wrapped_debug("ReceiptCid"@, receipt)
            + " }"@,
    }
}

impl RejectReason {
    /// The name of the reason.
    pub fn debug_text(&self) -> (s: &'static str)
        ensures
            s@ == reject_reason_debug(*self),
    {
        match self {
            RejectReason::OutOfBudget => "OutOfBudget",
            RejectReason::InvalidTranscript => "InvalidTranscript",
            RejectReason::InvalidWitness => "InvalidWitness",
            RejectReason::InternalExecutionFailure => "InternalExecutionFailure",
            RejectReason::MissingMinimumEvidence => "MissingMinimumEvidence",
        }
    }
}

impl FinalOutcome {
    /// The outcome as `Debug` writes it.
    pub fn debug_text(&self) -> (s: String)
        ensures
            s@ == outcome_debug(self@),
    {
        match self {
            FinalOutcome::Commit { output_cid } => "Commit { output_cid: ".to_string().concat(
                wrapped_debug_text("Cid", output_cid.as_str()).as_str(),
            ).concat(" }"),
            FinalOutcome::Reject { reason } => "Reject { reason: ".to_string().concat(reason.debug_text()).concat(" }"),
        }
    }
}

/// A list of cids as `Debug` writes it.
pub fn cid_list_debug_text(cids: &Vec<Cid>) -> (s: String)
    ensures
        s@ == cid_list_debug(cid_texts(cids@)),
{
    let ghost items = cid_texts(cids@).map_values(|c: Seq<char>| wrapped_debug("Cid"@, c));
    let mut out = String::new();
    let mut i: usize = 0;
    proof {
        assert(items.take(0) =~= Seq::<Seq<char>>::empty());
    }
    while i < cids.len()
        invariant
            i <= cids.len(),
            items == cid_texts(cids@).map_values(|c: Seq<char>| wrapped_debug("Cid"@, c)),
            out@ == join_with(items.take(i as int), ", "@),
        decreases cids.len() - i,
    {
        if i > 0 {
            out.append(", ");
        }
        let piece = wrapped_debug_text("Cid", cids[i].as_str());
        out.append(piece.as_str());
        proof {
            assert(items[i as int] == piece@);
            assert(items.take(i + 1).drop_last() =~= items.take(i as int));
            assert(items.take(i + 1).last() == items[i as int]);
            if i == 0 {
                assert(out@ =~= items.take(1)[0]);
            }
        }
        i += 1;
    }
    proof {
        assert(items.take(cids@.len() as int) =~= items);
    }
    "[".to_string().concat(out.as_str()).concat("]")
}

impl StepReceipt {
    /// The receipt as `Debug` writes it.
    pub fn debug_text(&self) -> (s: String)
        ensures
            s@ == receipt_debug(self@),
    {
        match self {
            StepReceipt::ProposalCreated { proposal_cid, producer_hash } => "ProposalCreated { proposal_cid: ".to_string().concat(
                wrapped_debug_text("Cid", proposal_cid.as_str()).as_str(),
            ).concat(", producer_hash: ").concat(wrapped_debug_text("Hash", producer_hash.as_str()).as_str()).concat(" }"),
            StepReceipt::AtomMaterialized { atom_cid } => "AtomMaterialized { atom_cid: ".to_string().concat(
                wrapped_debug_text("Cid", atom_cid.as_str()).as_str(),
            ).concat(" }"),
            StepReceipt::HumanWitnessed { witness_kind, answer_cid } => "HumanWitnessed { witness_kind: ".to_string().concat(
                debug_quoted_text(witness_kind.as_str()).as_str(),
            ).concat(", answer_cid: ").concat(wrapped_debug_text("Cid", answer_cid.as_str()).as_str()).concat(" }"),
            StepReceipt::WorkerYielded { worker_cid, task_cid, missing_cids, continuation_cid } => "WorkerYielded { worker_cid: ".to_string().concat(
                wrapped_debug_text("Cid", worker_cid.as_str()).as_str(),
            ).concat(", task_cid: ").concat(wrapped_debug_text("Cid", task_cid.as_str()).as_str()).concat(
                ", missing_cids: ",
            ).concat(cid_list_debug_text(missing_cids).as_str()).concat(", continuation_cid: ").concat(
                wrapped_debug_text("Cid", continuation_cid.as_str()).as_str(),
            ).concat(" }"),
            StepReceipt::WorkerCompleted { worker_cid, task_cid, receipt_cid } => "WorkerCompleted { worker_cid: ".to_string().concat(
                wrapped_debug_text("Cid", worker_cid.as_str()).as_str(),
            ).concat(", task_cid: ").concat(wrapped_debug_text("Cid", task_cid.as_str()).as_str()).concat(
                ", receipt_cid: ",
            ).concat(wrapped_debug_text("ReceiptCid", receipt_cid.as_str()).as_str()).concat(" }"),
        }
    }
}

/// A copy of a list of cids.
pub fn copy_cids(cids: &Vec<Cid>) -> (out: Vec<Cid>)
    ensures
        out@ == cids@,
{
    let mut out: Vec<Cid> = Vec::new();
    let mut i: usize = 0;
    while i < cids.len()
        invariant
            i <= cids.len(),
            out@ == cids@.take(i as int),
        decreases cids.len() - i,
    {
        out.push(cids[i].clone());
        proof {
            assert(cids@.take(i + 1) =~= cids@.take(i as int).push(cids@[i as int]));
        }
        i += 1;
    }
    assert(cids@.take(cids@.len() as int) =~= cids@);
    out
}

impl Clone for StepReceipt {
    fn clone(&self) -> (r: Self)
        ensures
            r@ == self@,
    {
        match self {
            StepReceipt::ProposalCreated { proposal_cid, producer_hash } => StepReceipt::ProposalCreated {
                proposal_cid: proposal_cid.clone(),
                producer_hash: producer_hash.clone(),
            },
            StepReceipt::AtomMaterialized { atom_cid } => StepReceipt::AtomMaterialized { atom_cid: atom_cid.clone() },
            StepReceipt::HumanWitnessed { witness_kind, answer_cid } => StepReceipt::HumanWitnessed {
                witness_kind: witness_kind.clone(),
                answer_cid: answer_cid.clone(),
            },
            StepReceipt::WorkerYielded { worker_cid, task_cid, missing_cids, continuation_cid } => StepReceipt::WorkerYielded {
                worker_cid: worker_cid.clone(),
                task_cid: task_cid.clone(),
                missing_cids: copy_cids(missing_cids),
                continuation_cid: continuation_cid.clone(),
            },
            StepReceipt::WorkerCompleted { worker_cid, task_cid, receipt_cid } => StepReceipt::WorkerCompleted {
                worker_cid: worker_cid.clone(),
                task_cid: task_cid.clone(),
                receipt_cid: receipt_cid.clone(),
            },
        }
    }
}

/// The canonical text of a receipt: its tag and fields joined by `|`; missing cids joined by `,`.
pub open spec fn receipt_text(r: ReceiptModel) -> Seq<char> {
    match r {
        ReceiptModel::ProposalCreated { proposal, producer } => bar_join(seq!["proposal"@, proposal, producer]),
        ReceiptModel::AtomMaterialized { atom } => bar_join(seq!["materialize"@, atom]),
        ReceiptModel::HumanWitnessed { kind, answer } => bar_join(seq!["witness"@, kind, answer]),
        ReceiptModel::WorkerYielded { worker, task, missing, continuation } => bar_join(
            seq!["worker_yielded"@, worker, task, join_with(missing, seq![',']), continuation],
        ),
        ReceiptModel::WorkerCompleted { worker, task, receipt } => bar_join(
            seq!["worker_completed"@, worker, task, receipt],
        ),
    }
}

fn cid_text_list(cids: &Vec<Cid>) -> (out: Vec<String>)
    ensures
        out@.map_values(|p: String| p@) == cid_texts(cids@),
{
    let mut out: Vec<String> = Vec::new();
    let mut i: usize = 0;
    while i < cids.len()
        invariant
            i <= cids.len(),
            out@.len() == i,
            forall|j: int| 0 <= j < i ==> out@[j]@ == cids@[j]@,
        decreases cids.len() - i,
    {
        out.push(cids[i].to_text());
        i += 1;
    }
    assert(out@.map_values(|p: String| p@) =~= cid_texts(cids@));
    out
}

impl StepReceipt {
    /// The canonical text of the receipt.
    pub fn canonical(&self) -> (s: String)
        ensures
            s@ == receipt_text(self@),
    {
        match self {
            StepReceipt::ProposalCreated { proposal_cid, producer_hash } => {
                let parts = ["proposal", proposal_cid.as_str(), producer_hash.as_str()];
                proof {
                    assert(views(parts@) =~= seq!["proposal"@, proposal_cid@, producer_hash@]);
                }
                canonical_join(&parts)
            },
            StepReceipt::AtomMaterialized { atom_cid } => {
                let parts = ["materialize", atom_cid.as_str()];
                proof {
                    assert(views(parts@) =~= seq!["materialize"@, atom_cid@]);
                }
                canonical_join(&parts)
            },
            StepReceipt::HumanWitnessed { witness_kind, answer_cid } => {
                let parts = ["witness", witness_kind.as_str(), answer_cid.as_str()];
                proof {
                    assert(views(parts@) =~= seq!["witness"@, witness_kind@, answer_cid@]);
                }
                canonical_join(&parts)
            },
            StepReceipt::WorkerYielded { worker_cid, task_cid, missing_cids, continuation_cid } => {
                let texts = cid_text_list(missing_cids);
                let missing = join_texts(&texts, ",");
                proof {
                    reveal_strlit(",");
                    assert(","@ =~= seq![',']);
                }
                let parts = [
                    "worker_yielded",
                    worker_cid.as_str(),
                    task_cid.as_str(),
                    missing.as_str(),
                    continuation_cid.as_str(),
                ];
                proof {
                    assert(views(parts@) =~= seq![
                        "worker_yielded"@,
                        worker_cid@,
                        task_cid@,
                        join_with(cid_texts(missing_cids@), seq![',']),
                        continuation_cid@,
                    ]);
                }
                canonical_join(&parts)
            },
            StepReceipt::WorkerCompleted { worker_cid, task_cid, receipt_cid } => {
                let parts = ["worker_completed", worker_cid.as_str(), task_cid.as_str(), receipt_cid.as_str()];
                proof {
                    assert(views(parts@) =~= seq!["worker_completed"@, worker_cid@, task_cid@, receipt_cid@]);
                }
                canonical_join(&parts)
            },
        }
    }

    /// Whether this is a worker completion.
    pub fn is_worker_completed(&self) -> (b: bool)
        ensures
            b == self@ is WorkerCompleted,
    {
        match self {
            StepReceipt::WorkerCompleted { .. } => true,
            _ => false,
        }
    }

    /// Whether this is a worker yield.
    pub fn is_worker_yielded(&self) -> (b: bool)
        ensures
            b == self@ is WorkerYielded,
    {
        match self {
            StepReceipt::WorkerYielded { .. } => true,
            _ => false,
        }
    }
}

impl crate::ids::Canonical for StepReceipt {
    /// The canonical text of the receipt: its tag and fields joined by `|`.
    fn canonical(&self) -> (s: String)
        ensures
            s@ == receipt_text(self@),
    {
        StepReceipt::canonical(self)
    }
}

impl StepAction {
    /// The canonical text of the action.
    pub fn canonical(&self) -> (s: String)
        ensures
            s@ == action_text(*self),
    {
        match self {
            StepAction::Compute(ComputeAction::RunWorker { worker_cid, task_cid }) => {
                let parts = ["compute", "run_worker", worker_cid.as_str(), task_cid.as_str()];
                proof {
                    assert(views(parts@) =~= seq!["compute"@, "run_worker"@, worker_cid@, task_cid@]);
                }
                canonical_join(&parts)
            },
            StepAction::Materialize { cid } => {
                let parts = ["materialize", cid.as_str()];
                proof {
                    assert(views(parts@) =~= seq!["materialize"@, cid@]);
                }
                canonical_join(&parts)
            },
            StepAction::Witness { witness_kind, prompt_cid } => {
                let parts = ["witness", witness_kind.as_str(), prompt_cid.as_str()];
                proof {
                    assert(views(parts@) =~= seq!["witness"@, witness_kind@, prompt_cid@]);
                }
                canonical_join(&parts)
            },
        }
    }
}

/// The canonical text of an action: its kind and fields joined by `|`.
pub open spec fn action_text(a: StepAction) -> Seq<char> {
    match a {
        StepAction::Compute(ComputeAction::RunWorker { worker_cid, task_cid }) => bar_join(
            seq!["compute"@, "run_worker"@, worker_cid@, task_cid@],
        ),
        StepAction::Materialize { cid } => bar_join(seq!["materialize"@, cid@]),
        StepAction::Witness { witness_kind, prompt_cid } => bar_join(
            seq!["witness"@, witness_kind@, prompt_cid@],
        ),
    }
}

} // verus!
