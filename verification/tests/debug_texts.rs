use sovereign::ids::{Cid, PointerAlias, ProofPackCid, ReasonCode, ReceiptCid};
use sovereign::manager::ManagerOutput;
use sovereign::storage::{EpistemicHeat, PageFault};
use sovereign::text::debug_quoted_text;
use sovereign::transcript::{FinalOutcome, RejectReason, StepReceipt};

#[test]
fn quoted_text_matches_debug_of_plain_and_escaped_texts() {
    for s in ["", "cid:doc:intake:payload", "say \"hi\"", "back\\slash", "line\nbreak\tand\rreturn", "nul\0", "bell\u{7}", "esc\u{1b}", "del\u{7f}", "ação"] {
        assert_eq!(debug_quoted_text(s), format!("{:?}", s));
    }
}

#[test]
fn outcome_debug_text_matches_debug() {
    let commit = FinalOutcome::Commit { output_cid: Cid::new("cid:receipt:decision-pack:abc") };
    assert_eq!(commit.debug_text(), format!("{:?}", commit));
    assert_eq!(commit.debug_text(), "Commit { output_cid: Cid(\"cid:receipt:decision-pack:abc\") }");
    for reason in [
        RejectReason::OutOfBudget,
        RejectReason::InvalidTranscript,
        RejectReason::InvalidWitness,
        RejectReason::InternalExecutionFailure,
        RejectReason::MissingMinimumEvidence,
    ] {
        let o = FinalOutcome::Reject { reason };
        assert_eq!(o.debug_text(), format!("{:?}", o));
    }
}

#[test]
fn receipt_debug_text_matches_debug() {
    let receipts = vec![
        StepReceipt::ProposalCreated {
            proposal_cid: Cid::new("cid:proposal:1"),
            producer_hash: sovereign::ids::Hash::new("abc123"),
        },
        StepReceipt::AtomMaterialized { atom_cid: Cid::new("cid:atom:1") },
        StepReceipt::HumanWitnessed { witness_kind: "approve \"yes\"".to_string(), answer_cid: Cid::new("cid:answer") },
        StepReceipt::WorkerYielded {
            worker_cid: Cid::new("worker:a"),
            task_cid: Cid::new("task:a"),
            missing_cids: vec![],
            continuation_cid: Cid::new("cid:continuation:a"),
        },
        StepReceipt::WorkerYielded {
            worker_cid: Cid::new("worker:a"),
            task_cid: Cid::new("task:a"),
            missing_cids: vec![Cid::new("cid:x"), Cid::new("cid:y")],
            continuation_cid: Cid::new("cid:continuation:a"),
        },
        StepReceipt::WorkerCompleted {
            worker_cid: Cid::new("worker:a"),
            task_cid: Cid::new("task:a"),
            receipt_cid: ReceiptCid::new("cid:receipt:a"),
        },
    ];
    for r in &receipts {
        assert_eq!(r.debug_text(), format!("{:?}", r));
    }
}

#[test]
fn page_fault_debug_text_matches_debug() {
    let faults = vec![
        PageFault::AtomNotHot { cid: Cid::new("cid:a"), current: EpistemicHeat::Cold },
        PageFault::AtomNotHot { cid: Cid::new("cid:a"), current: EpistemicHeat::Absent },
        PageFault::NetworkRequired { cid: Cid::new("cid:missing") },
        PageFault::BudgetExhausted { required: 12, available: 7 },
        PageFault::CorruptedCid { expected: Cid::new("cid:e"), actual: Cid::new("cid:f") },
    ];
    for f in &faults {
        assert_eq!(f.debug_text(), format!("{:?}", f));
    }
    for h in [EpistemicHeat::Absent, EpistemicHeat::Cold, EpistemicHeat::Warm, EpistemicHeat::Hot] {
        assert_eq!(h.debug_text(), format!("{:?}", h));
    }
}

#[test]
fn manager_output_debug_text_matches_debug() {
    let outputs = vec![
        ManagerOutput::Delegate { worker_cid: Cid::new("worker:w"), task_cid: Cid::new("task:t") },
        ManagerOutput::RequestEvidence { cid: Cid::new("cid:e") },
        ManagerOutput::LoadExpert { expert_id: "expert-1".to_string(), input_set_cid: Cid::new("cid:in") },
        ManagerOutput::Escalate { queue: "ops".to_string(), reason_code: ReasonCode(42) },
        ManagerOutput::AskHumanWitness { witness_kind: "approve".to_string(), prompt_cid: Cid::new("cid:p") },
        ManagerOutput::AdvancePointer {
            alias: PointerAlias::new("cases:c1:latest"),
            head_cid: Cid::new("cid:head"),
            proof_pack_cid: ProofPackCid::new("pp:1"),
        },
        ManagerOutput::Reject { reason_code: ReasonCode(7) },
        ManagerOutput::NoOp,
    ];
    for o in &outputs {
        assert_eq!(o.debug_text(), format!("{:?}", o));
    }
}
