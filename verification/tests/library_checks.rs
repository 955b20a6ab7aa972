use sha2::{Digest, Sha256};

use sovereign::runtime::{record_worker_result, RoundOutcome};
use sovereign::worker::{WorkerError, WorkerResult, WorkerYield};

use sovereign::decision::{gate_run, BudgetContract, ErrorContractQ16, GateInputs, ProposalEnvelope, Verdict};
use sovereign::federation::{
    AcceptRejectReason, AcceptanceVerdict, BasicPointerValidator, FederationView, PointerClass, PointerPolicy,
    PointerValidator,
};
use sovereign::ids::{CaseId, Cid, NodeId, PointerAlias, ProofPackCid, ReasonCode, Signature};
use sovereign::keyed_map::KeyedMap;
use sovereign::manager_app::app_state::{AppState, CaseStatus};
use sovereign::manager_app::case_service::{build_operational_projection, CaseService};
use sovereign::manager_app::commands::bootstrap_case_to_committed_or_federated;
use sovereign::manager_app::demo_domain::{entry_task_cid, execute_document_case, stage_name_from_worker};
use sovereign::manager_app::federation_service::FederationService;
use sovereign::manager_app::heat_service::HeatService;
use sovereign::manager_app::replay_service::{diff_proofs, ReplayService};
use sovereign::manager_app::witness_service::WitnessService;
use sovereign::sovereign_demo::{run_sovereign_demo, YieldingWorker};
use sovereign::storage::{EpistemicHeat, StatePointer};
use sovereign::text::{canonical_join, hash_canonical, text_less};
use sovereign::transcript::{FinalOutcome, RejectReason, StepReceipt};

fn sha_hex(text: &str) -> String {
    hex::encode(Sha256::digest(text.as_bytes()))
}

fn error_contract() -> ErrorContractQ16 {
    ErrorContractQ16 {
        epsilon_q16: 32,
        zero_guess_domains: vec!["finance".to_string()],
        max_questions_per_case: 1,
        max_ghosts_per_epoch: 8,
        ok_min_q16: 50000,
        reject_max_q16: 30000,
        max_risk_q16: 10000,
    }
}

fn budget_contract() -> BudgetContract {
    BudgetContract {
        max_ram_mb: 512,
        max_vram_mb: 512,
        max_loaded_params_mb: 256,
        max_live_context_tokens: 4096,
        max_rehydrations: 4,
        max_escalations: 1,
        max_hot_atoms: 32,
    }
}

fn proposal(score: u32, risk: u32, ram: u32) -> ProposalEnvelope {
    ProposalEnvelope {
        hypothesis_cid: Cid::new("cid:hypothesis:001"),
        score_q16: score,
        risk_q16: risk,
        required_atoms: vec![],
        required_workers: vec![],
        estimated_ram_mb: ram,
        estimated_vram_mb: 0,
        estimated_params_mb: 4,
        producer_hash: sovereign::ids::Hash::new("producer"),
    }
}

fn inputs<'a>(
    domain: &'a str,
    evidence: bool,
    anchored: bool,
    questions_used: u8,
    err: &'a ErrorContractQ16,
    budget: &'a BudgetContract,
) -> GateInputs<'a> {
    GateInputs {
        domain,
        has_intent: true,
        has_minimum_evidence: evidence,
        evidence_anchored: anchored,
        deterministic_proof: false,
        questions_used,
        ghosts_used_in_epoch: 0,
        escalations_used: 0,
        rehydrations_used: 0,
        live_ram_mb: 64,
        live_vram_mb: 0,
        loaded_params_mb: 0,
        live_context_tokens: 128,
        hot_atoms: 0,
        err,
        budget,
    }
}

#[test]
fn gate_commits_a_scored_anchored_proposal() {
    let err = error_contract();
    let budget = budget_contract();
    let d = gate_run(inputs("ops", true, true, 0, &err, &budget), &proposal(54000, 5000, 16));
    assert_eq!(d.verdict, Verdict::Commit);
    assert_eq!(d.reason_code, ReasonCode::none());
    assert_eq!(d.next_action, None);
}

#[test]
fn gate_asks_one_question_when_evidence_is_missing() {
    let err = error_contract();
    let budget = budget_contract();
    let d = gate_run(inputs("ops", false, true, 0, &err, &budget), &proposal(54000, 5000, 16));
    assert_eq!(d.verdict, Verdict::GhostQuestion);
    assert_eq!(d.reason_code, ReasonCode::missing_evidence());
    assert_eq!(d.next_action.as_deref(), Some("retrieve:cid:hypothesis:001"));

    let d = gate_run(inputs("ops", false, true, 1, &err, &budget), &proposal(54000, 5000, 16));
    assert_eq!(d.verdict, Verdict::Reject);
    assert_eq!(d.reason_code, ReasonCode::missing_evidence());
}

#[test]
fn gate_rejects_unanchored_zero_guess_and_over_budget() {
    let err = error_contract();
    let budget = budget_contract();
    let d = gate_run(inputs("ops", true, false, 0, &err, &budget), &proposal(54000, 5000, 16));
    assert_eq!((d.verdict, d.reason_code), (Verdict::Reject, ReasonCode::unanchored()));
    let d = gate_run(inputs("finance", true, true, 0, &err, &budget), &proposal(54000, 5000, 16));
    assert_eq!((d.verdict, d.reason_code), (Verdict::Reject, ReasonCode::zero_guess()));
    let d = gate_run(inputs("ops", true, true, 0, &err, &budget), &proposal(54000, 5000, 500));
    assert_eq!((d.verdict, d.reason_code), (Verdict::Reject, ReasonCode::resource_violation()));
    let d = gate_run(inputs("ops", true, true, 0, &err, &budget), &proposal(20000, 5000, 16));
    assert_eq!(d.verdict, Verdict::Reject);
    let d = gate_run(inputs("ops", true, true, 0, &err, &budget), &proposal(40000, 5000, 16));
    assert_eq!(d.verdict, Verdict::GhostQuestion);
    assert_eq!(d.next_action.as_deref(), Some("ask_human_witness"));
}

#[test]
fn canonical_hash_is_sha256_hex_of_bar_joined_parts() {
    assert_eq!(canonical_join(&["a", "b", "c"]), "a|b|c");
    assert_eq!(
        hash_canonical(&["abc"]).as_str(),
        "ba7816bf8f01cfea414140de5dae2223b00361a396177a9cb410ff61f20015ad"
    );
    assert_eq!(hash_canonical(&["x", "y"]).as_str(), sha_hex("x|y"));
    assert_eq!(hash_canonical(&["x", "y"]), hash_canonical(&["x", "y"]));
}

#[test]
fn yielding_worker_receipt_hashes_task_text_and_worker() {
    let r = YieldingWorker::receipt_for(&Cid::new("cid:task:one"), b"context");
    assert_eq!(r.as_str(), format!("cid:receipt:{}", sha_hex("cid:task:one|context|worker:yielding:v1")));
}

#[test]
fn text_order_is_by_character() {
    assert!(text_less("cid:a", "cid:b"));
    assert!(text_less("cid", "cid:a"));
    assert!(!text_less("cid:b", "cid:a"));
    assert!(!text_less("same", "same"));
}

#[test]
fn keyed_map_reads_back_what_was_written() {
    let mut m: KeyedMap<String, u64> = KeyedMap::new();
    m.insert("a".to_string(), 1);
    m.insert("b".to_string(), 2);
    m.insert("a".to_string(), 3);
    assert_eq!(m.len(), 2);
    assert_eq!(m.get("a"), Some(&3));
    assert_eq!(m.remove("b"), Some(2));
    assert_eq!(m.get("b"), None);
}

fn federation(authority: &str, ppc: &ProofPackCid, allow_forks: bool) -> FederationView {
    FederationView {
        recognized_nodes: vec![],
        accepted_contract_hashes: vec![],
        accepted_proof_packs: vec![ppc.clone()],
        pointer_policies: vec![PointerPolicy {
            alias_prefix: "cases:".to_string(),
            class: PointerClass::SharedCase,
            accepted_authorities: vec![NodeId::new(authority)],
            requires_quorum: false,
            quorum_size: 0,
            allow_forks,
            require_proof_pack: true,
        }],
        acceptance_receipts: vec![],
    }
}

fn pointer(alias: &str, prev: Option<&str>, head: &str, seq: u64, authority: &str) -> StatePointer {
    StatePointer {
        alias: PointerAlias::new(alias),
        prev_head_cid: prev.map(Cid::new),
        head_cid: Cid::new(head),
        sequence_number: seq,
        authority_id: NodeId::new(authority),
        authority_signature: Signature::new("sig"),
    }
}

#[test]
fn validator_names_each_rejection() {
    let ppc = ProofPackCid::new("cid:pack");
    let fed = federation("node-a", &ppc, false);
    let v = BasicPointerValidator;
    let prev = pointer("cases:x", None, "cid:h1", 2, "node-a");

    let rewind = pointer("cases:x", Some("cid:h1"), "cid:h0", 1, "node-a");
    assert_eq!(v.validate_pointer(&rewind, Some(&prev), Some(&ppc), &fed), AcceptanceVerdict::Rejected(AcceptRejectReason::RewindAttempt));

    let fork = pointer("cases:x", Some("cid:h0"), "cid:other", 2, "node-a");
    assert_eq!(v.validate_pointer(&fork, Some(&prev), Some(&ppc), &fed), AcceptanceVerdict::ForkDetected);

    let gap = pointer("cases:x", Some("cid:elsewhere"), "cid:h2", 3, "node-a");
    assert_eq!(v.validate_pointer(&gap, Some(&prev), Some(&ppc), &fed), AcceptanceVerdict::Rejected(AcceptRejectReason::SequenceGap));
    let fed_forks = federation("node-a", &ppc, true);
    assert_eq!(v.validate_pointer(&gap, Some(&prev), Some(&ppc), &fed_forks), AcceptanceVerdict::ForkDetected);

    let stranger = pointer("cases:x", Some("cid:h1"), "cid:h2", 3, "node-z");
    assert_eq!(v.validate_pointer(&stranger, Some(&prev), Some(&ppc), &fed), AcceptanceVerdict::Rejected(AcceptRejectReason::AuthorityViolation));

    let unlisted = pointer("other:x", Some("cid:h1"), "cid:h2", 3, "node-a");
    assert_eq!(v.validate_pointer(&unlisted, Some(&prev), Some(&ppc), &fed), AcceptanceVerdict::Rejected(AcceptRejectReason::PolicyViolation));

    let good = pointer("cases:x", Some("cid:h1"), "cid:h2", 3, "node-a");
    let other_pack = ProofPackCid::new("cid:unknown-pack");
    assert_eq!(v.validate_pointer(&good, Some(&prev), Some(&other_pack), &fed), AcceptanceVerdict::Rejected(AcceptRejectReason::InvalidProof));
    assert_eq!(v.validate_pointer(&good, Some(&prev), Some(&ppc), &fed), AcceptanceVerdict::Accepted);
    assert_eq!(v.validate_pointer(&good, None, Some(&ppc), &fed), AcceptanceVerdict::Accepted);
    assert_eq!(AcceptanceVerdict::Rejected(AcceptRejectReason::SequenceGap).label(), "Rejected(SequenceGap)");
}

#[test]
fn run_case_once_refuses_unknown_case_and_missing_event() {
    let mut state = AppState::new_seeded();
    let err = CaseService::run_case_once(&mut state, "case-doc-001").unwrap_err();
    assert!(err.starts_with("expected delegate, got "));
    let err = CaseService::run_case_once(&mut state, "case-missing").unwrap_err();
    assert_eq!(err, "manager evaluate failed: unknown case");
    CaseService::enqueue_document_event(&mut state, "case-doc-001", Cid::new("cid:task:other")).unwrap();
    let err = CaseService::run_case_once(&mut state, "case-doc-001").unwrap_err();
    assert_eq!(err, "unexpected delegate route worker=worker:document-intake:v7 task=cid:task:other");
}

#[test]
fn timeline_lines_are_numbered_and_name_each_stage() {
    let mut state = AppState::new_seeded();
    let case_id = "case-doc-001";
    CaseService::enqueue_document_event(&mut state, case_id, entry_task_cid()).unwrap();
    CaseService::run_case_once(&mut state, case_id).unwrap();
    let timeline = state.case_timeline.get(case_id).unwrap();
    assert_eq!(timeline.len(), 5);
    assert!(timeline[0].starts_with("#00 stage=intake action=yield worker=worker:document-intake:v7 task=cid:task:doc-intake:001 missing=[cid:doc:intake:payload] continuation=cid:continuation:intake:"));
    assert!(timeline[0].ends_with("insight='atom de payload estava frio; runtime precisa heat-up para retomar'"));
    assert!(timeline[4].starts_with("#04 stage=decision-pack action=complete"));
    let ledger = state.worker_ledger_by_case.get(case_id).unwrap();
    assert_eq!(ledger.len(), 5);
    assert_eq!(ledger[0].artifact_cids.len(), 2);
    assert_eq!(ledger[0].artifact_cids[1], Cid::new("cid:doc:intake:payload"));
    assert_eq!(stage_name_from_worker(&Cid::new("worker:unknown")), "unknown-stage");
    let pending = state.pending_completions.get(case_id).unwrap();
    assert_eq!(
        pending.required_witness_ids,
        vec![
            Cid::new("cid:witness:confirm:case-doc-001"),
            Cid::new("cid:witness:field-fill:case-doc-001"),
            Cid::new("cid:witness:approval:case-doc-001"),
        ]
    );
    assert_eq!(state.witness_inbox.len(), 3);
    assert_eq!(state.witness_inbox[1].prompt_cid, Cid::new("cid:witness:prompt:case-doc-001"));
}

#[test]
fn witnesses_must_exist_and_each_counts_once() {
    let mut state = AppState::new_seeded();
    let case_id = "case-doc-001";
    let err = WitnessService::resolve_binary_confirm(&mut state, case_id, true).unwrap_err();
    assert_eq!(err, "matching witness not found for case-doc-001");

    CaseService::enqueue_document_event(&mut state, case_id, entry_task_cid()).unwrap();
    CaseService::run_case_once(&mut state, case_id).unwrap();
    let r = WitnessService::resolve_approval(&mut state, case_id, false).unwrap();
    assert_eq!(r, "witness recorded; waiting 2 additional witness(es)");
    let err = WitnessService::resolve_approval(&mut state, case_id, true).unwrap_err();
    assert_eq!(err, "matching witness not found for case-doc-001");
    let last = state.case_timeline.get(case_id).unwrap().last().unwrap().clone();
    assert!(last.starts_with("witness action=resolve witness_id=cid:witness:approval:case-doc-001 kind=approve_reject response=rejected"));
    assert_eq!(state.statuses.get(case_id), Some(&CaseStatus::BlockedOnWitness));
}

#[test]
fn heat_controls_and_sorted_snapshot() {
    let mut state = AppState::new_seeded();
    let case_id = "case-doc-001";
    let err = HeatService::cool_down(&mut state, case_id, &Cid::new("cid:b")).unwrap_err();
    assert_eq!(err, "cid cid:b is not tracked for case case-doc-001");
    assert!(state.case_atom_heat.get(case_id).is_some());
    HeatService::heat_up(&mut state, case_id, Cid::new("cid:b")).unwrap();
    HeatService::heat_up(&mut state, case_id, Cid::new("cid:a")).unwrap();
    HeatService::cool_down(&mut state, case_id, &Cid::new("cid:b")).unwrap();
    let snap = HeatService::snapshot(&state, case_id);
    assert_eq!(snap, vec![(Cid::new("cid:a"), EpistemicHeat::Hot), (Cid::new("cid:b"), EpistemicHeat::Cold)]);
    assert_eq!(state.hot_atoms_by_case.get(case_id), Some(&vec![Cid::new("cid:a")]));
    assert_eq!(state.replay_log.last().unwrap(), "case=case-doc-001 cool_down=cid:b");
    assert!(HeatService::snapshot(&state, "case-none").is_empty());
}

#[test]
fn wipe_cools_the_wiped_atoms_and_lists_them() {
    let mut state = AppState::new_seeded();
    let case_id = "case-doc-001";
    HeatService::heat_up(&mut state, case_id, Cid::new("cid:x")).unwrap();
    let report = ReplayService::wipe_hot_state(&mut state, case_id).unwrap();
    assert_eq!(report.wiped_hot_atoms, vec![Cid::new("cid:x")]);
    assert_eq!(HeatService::snapshot(&state, case_id), vec![(Cid::new("cid:x"), EpistemicHeat::Cold)]);
    assert_eq!(state.replay_log.last().unwrap(), "case=case-doc-001 wipe_hot_atoms=cid:x");
    let again = ReplayService::wipe_hot_state(&mut state, case_id).unwrap();
    assert!(again.wiped_hot_atoms.is_empty());
    assert_eq!(state.replay_log.last().unwrap(), "case=case-doc-001 wipe_hot_atoms=none");
}

#[test]
fn replay_from_ashes_matches_an_untouched_proof() {
    let mut state = AppState::new_seeded();
    let case_id = "case-doc-001";
    assert_eq!(
        ReplayService::replay_case_from_ashes(&mut state, case_id).unwrap_err(),
        "missing original proof for case-doc-001"
    );
    bootstrap_case_to_committed_or_federated(&mut state, case_id).unwrap();
    assert_eq!(state.statuses.get(case_id), Some(&CaseStatus::Federated));
    ReplayService::wipe_hot_state(&mut state, case_id).unwrap();
    assert!(ReplayService::replay_case_from_ashes(&mut state, case_id).unwrap());
    assert_eq!(state.replay_log.last().unwrap(), "case=case-doc-001 replay_match=true");
}

#[test]
fn replay_names_a_changed_outcome() {
    let mut state = AppState::new_seeded();
    let case_id = "case-doc-001";
    let mut tampered = execute_document_case(&CaseId::new(case_id)).unwrap().proof;
    tampered.final_outcome = FinalOutcome::Reject { reason: RejectReason::OutOfBudget };
    state.proofs.insert(case_id.to_string(), tampered);
    let report = ReplayService::replay_case_with_diff(&mut state, case_id).unwrap();
    assert_eq!(report.diffs.len(), 1);
    assert_eq!(report.diffs[0].field, "final_outcome");
    assert_eq!(report.diffs[0].original, "Reject { reason: OutOfBudget }");
    assert!(report.diffs[0].replayed.starts_with("Commit { output_cid: Cid(\"cid:receipt:decision-pack:"));
}

#[test]
fn fork_simulation_needs_a_proof() {
    let mut state = AppState::new_seeded();
    assert_eq!(
        FederationService::simulate_fork(&mut state, "case-doc-001").unwrap_err(),
        "missing proof for case-doc-001"
    );
    assert_eq!(
        FederationService::announce_and_validate(&mut state, "case-doc-001").unwrap_err(),
        "missing proof for case-doc-001"
    );
    assert!(state.pointer_announcements.is_empty());
}

#[test]
fn sovereign_demo_commits_and_is_accepted() {
    let report = run_sovereign_demo().unwrap();
    assert_eq!(report.gate.verdict, Verdict::Commit);
    assert_eq!(report.federation_verdict, AcceptanceVerdict::Accepted);
    assert!(report.proof.final_receipt_cid.is_some());
}

#[test]
fn projection_renders_other_receipts_with_debug() {
    let mut proof = execute_document_case(&CaseId::new("case-doc-001")).unwrap().proof;
    proof.transcript_receipts.push(StepReceipt::AtomMaterialized { atom_cid: Cid::new("cid:x") });
    let (timeline, ledger) = build_operational_projection(&proof);
    assert_eq!(timeline.len(), 6);
    assert_eq!(timeline[5], "#05 action=other receipt=AtomMaterialized { atom_cid: Cid(\"cid:x\") }");
    assert_eq!(ledger.len(), 5);
    assert_eq!(ledger[1].action, "complete");
    assert_eq!(ledger[1].stage, "intake");
    assert_eq!(ledger[1].insight, "classificacao inicial concluida e trilha de evidencia aberta");
}

#[test]
fn worker_results_become_receipts_or_errors() {
    let w = Cid::new("worker:w");
    let t = Cid::new("cid:task:t");
    let mut out: Vec<StepReceipt> = Vec::new();
    let y = WorkerYield { missing_cids: vec![Cid::new("cid:m")], continuation_cid: Cid::new("cid:c") };
    assert!(matches!(record_worker_result(&mut out, WorkerResult::Yield(y), &w, &t), RoundOutcome::Resume(_)));
    let done = record_worker_result(&mut out, WorkerResult::Complete(sovereign::ids::ReceiptCid::new("cid:r")), &w, &t);
    assert!(matches!(done, RoundOutcome::Completed));
    assert_eq!(out.len(), 2);
    assert!(out[1].is_worker_completed() && out[0].is_worker_yielded());
    match record_worker_result(&mut out, WorkerResult::Fail(WorkerError::InvalidTask), &w, &t) {
        RoundOutcome::Failed(e) => assert_eq!(e, "worker failure: InvalidTask"),
        _ => panic!("expected a failure"),
    }
    assert_eq!(out.len(), 2);
}

#[test]
fn diff_proofs_lists_exactly_the_changed_fields() {
    let proof = execute_document_case(&CaseId::new("case-doc-001")).unwrap().proof;
    assert!(diff_proofs(&proof, &proof.clone()).is_empty());
    let mut tampered = proof.clone();
    tampered.contract_hash = sovereign::ids::Hash::new("contract:tampered");
    tampered.event_count = 9;
    let diffs = diff_proofs(&tampered, &proof);
    assert_eq!(diffs.len(), 2);
    assert_eq!((diffs[0].field.as_str(), diffs[0].original.as_str(), diffs[0].replayed.as_str()), ("contract_hash", "contract:tampered", "contract:document-intake:v7"));
    assert_eq!((diffs[1].field.as_str(), diffs[1].original.as_str(), diffs[1].replayed.as_str()), ("event_count", "9", "5"));
}
