use std::collections::HashSet;

use sovereign::federation::AcceptanceVerdict;
use sovereign::ids::{CaseId, Cid};
use sovereign::manager_app::app_state::{AppState, CaseStatus};
use sovereign::manager_app::case_service::CaseService;
use sovereign::manager_app::demo_domain::{entry_task_cid, execute_document_case};
use sovereign::manager_app::federation_service::FederationService;
use sovereign::manager_app::heat_service::HeatService;
use sovereign::manager_app::replay_service::ReplayService;
use sovereign::manager_app::witness_service::WitnessService;
use sovereign::storage::EpistemicHeat;

#[test]
fn timeline_is_operationally_legible_across_workers() {
    let mut state = AppState::new_seeded();
    let case_id = "case-doc-001";

    CaseService::enqueue_document_event(&mut state, case_id, entry_task_cid()).unwrap();
    let report = CaseService::run_case_once(&mut state, case_id).unwrap();
    assert!(report.had_yield);
    assert_eq!(report.delegated_worker, Cid::new("worker:document-intake:v7"));

    let timeline = state.case_timeline.get(case_id).expect("timeline should exist");
    assert!(timeline.iter().any(|line| line.contains("stage=intake action=yield")));
    assert!(timeline.iter().any(|line| line.contains("stage=extract action=complete")));
    assert!(timeline.iter().any(|line| line.contains("stage=validate action=complete")));
    assert!(timeline.iter().any(|line| line.contains("stage=decision-pack action=complete")));
}

#[test]
fn each_worker_stage_adds_distinct_operational_insight() {
    let mut state = AppState::new_seeded();
    let case_id = "case-doc-001";

    CaseService::enqueue_document_event(&mut state, case_id, entry_task_cid()).unwrap();
    CaseService::run_case_once(&mut state, case_id).unwrap();

    let ledger = state.worker_ledger_by_case.get(case_id).expect("worker ledger should exist");

    let complete_entries = ledger.iter().filter(|entry| entry.action == "complete").collect::<Vec<_>>();
    assert_eq!(complete_entries.len(), 4);

    let unique_insights = complete_entries.iter().map(|entry| entry.insight.clone()).collect::<HashSet<_>>();
    assert_eq!(unique_insights.len(), 4);
}

#[test]
fn case_only_unblocks_after_all_typed_witnesses() {
    let mut state = AppState::new_seeded();
    let case_id = "case-doc-001";

    CaseService::enqueue_document_event(&mut state, case_id, entry_task_cid()).unwrap();
    CaseService::run_case_once(&mut state, case_id).unwrap();
    assert_eq!(state.statuses.get(case_id), Some(&CaseStatus::BlockedOnWitness));

    let r1 = WitnessService::resolve_binary_confirm(&mut state, case_id, true).unwrap();
    assert!(r1.contains("waiting 2"));
    assert!(state.manager.cases.get(case_id).and_then(|c| c.current_head_cid.clone()).is_none());

    let r2 = WitnessService::resolve_field_fill(&mut state, case_id, "DOC-99821").unwrap();
    assert!(r2.contains("waiting 1"));
    assert!(state.manager.cases.get(case_id).and_then(|c| c.current_head_cid.clone()).is_none());

    let r3 = WitnessService::resolve_approval(&mut state, case_id, true).unwrap();
    assert!(r3.contains("all witnesses resolved"));
    assert_eq!(state.statuses.get(case_id), Some(&CaseStatus::Committed));
    assert!(state.manager.cases.get(case_id).and_then(|c| c.current_head_cid.clone()).is_some());
}

#[test]
fn dual_node_records_are_emitted_for_announcement_and_acceptance() {
    let mut state = AppState::new_seeded();
    let case_id = "case-doc-001";

    CaseService::enqueue_document_event(&mut state, case_id, entry_task_cid()).unwrap();
    CaseService::run_case_once(&mut state, case_id).unwrap();
    WitnessService::resolve_binary_confirm(&mut state, case_id, true).unwrap();
    WitnessService::resolve_field_fill(&mut state, case_id, "DOC-99821").unwrap();
    WitnessService::resolve_approval(&mut state, case_id, true).unwrap();

    let verdict = FederationService::announce_and_validate(&mut state, case_id).unwrap();
    assert_eq!(verdict, AcceptanceVerdict::Accepted);
    assert_eq!(state.pointer_announcements.len(), 1);
    assert_eq!(state.acceptance_receipts.len(), 1);
    assert_eq!(state.pointer_announcements[0].announcer_node_id.as_str(), "node-a");
    assert_eq!(state.acceptance_receipts[0].verifier_node_id.as_str(), "node-b");
}

#[test]
fn fork_registry_is_populated_on_competing_head() {
    let mut state = AppState::new_seeded();
    let case_id = "case-doc-001";

    CaseService::enqueue_document_event(&mut state, case_id, entry_task_cid()).unwrap();
    CaseService::run_case_once(&mut state, case_id).unwrap();
    WitnessService::resolve_binary_confirm(&mut state, case_id, true).unwrap();
    WitnessService::resolve_field_fill(&mut state, case_id, "DOC-99821").unwrap();
    WitnessService::resolve_approval(&mut state, case_id, true).unwrap();
    FederationService::announce_and_validate(&mut state, case_id).unwrap();

    let fork_verdict = FederationService::simulate_fork(&mut state, case_id).unwrap();
    assert_eq!(fork_verdict, AcceptanceVerdict::ForkDetected);
    assert_eq!(state.fork_registry.len(), 1);
    assert_eq!(state.fork_registry[0].alias.as_str(), "cases:case-doc-001:latest");
}

#[test]
fn heat_debug_controls_update_projection_and_snapshot() {
    let mut state = AppState::new_seeded();
    let case_id = "case-doc-001";

    CaseService::enqueue_document_event(&mut state, case_id, entry_task_cid()).unwrap();
    CaseService::run_case_once(&mut state, case_id).unwrap();

    let atom = Cid::new("cid:doc:intake:payload");
    HeatService::cool_down(&mut state, case_id, &atom).unwrap();
    assert!(state
        .hot_atoms_by_case
        .get(case_id)
        .map(|v| v.iter().all(|cid| cid != &atom))
        .unwrap_or(true));

    HeatService::heat_up(&mut state, case_id, atom.clone()).unwrap();
    let snapshot = HeatService::snapshot(&state, case_id);
    assert!(snapshot.iter().any(|(cid, heat)| cid == &atom && *heat == EpistemicHeat::Hot));
}

#[test]
fn replay_report_contains_field_diffs_when_original_is_tampered() {
    let mut state = AppState::new_seeded();
    let case_id = "case-doc-001";
    let original = execute_document_case(&CaseId::new(case_id)).unwrap().proof;
    state.proofs.insert(case_id.to_string(), original.clone());

    let mut tampered = original;
    tampered.contract_hash = sovereign::ids::Hash::new("contract:tampered");
    state.proofs.insert(case_id.to_string(), tampered);

    let report = ReplayService::replay_case_with_diff(&mut state, case_id).unwrap();
    assert!(!report.matches);
    assert!(!report.diffs.is_empty());
}

#[test]
fn wipe_hot_state_clears_case_hot_atoms() {
    let mut state = AppState::new_seeded();
    let case_id = "case-doc-001";
    state
        .hot_atoms_by_case
        .insert(case_id.to_string(), vec![Cid::new("cid:atom:1"), Cid::new("cid:atom:2")]);

    let report = ReplayService::wipe_hot_state(&mut state, case_id).unwrap();
    assert_eq!(report.case_id.as_str(), case_id);
    assert_eq!(report.wiped_hot_atoms.len(), 2);
    assert!(state.hot_atoms_by_case.get(case_id).is_none());
}
