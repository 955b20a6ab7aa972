//! Steps the command line chains together.

use vstd::prelude::*;

use crate::manager_app::app_state::{AppState, CaseStatus};
use crate::manager_app::case_service::CaseService;
use crate::manager_app::demo_domain::entry_task_cid;
use crate::manager_app::federation_service::FederationService;
use crate::manager_app::witness_service::WitnessService;

verus! {

/// Brings a case that has no proof yet through a run, its witnesses and the federation: the
/// intake event is enqueued, the case runs once, each witness the run asks for is answered
/// (confirmed, filled with `DOC-99821`, approved), and node-a announces the pointer. A case
/// with a proof is left as it is.
pub fn bootstrap_case_to_committed_or_federated(state: &mut AppState, case_id: &str) -> (r: Result<(), String>)
    ensures
        old(state).proofs@.contains_key(case_id@) ==> r is Ok && *final(state) == *old(state),
        !old(state).proofs@.contains_key(case_id@) && r is Ok ==> final(state).proofs@.contains_key(case_id@)
            && final(state).statuses@.contains_key(case_id@) && final(state).statuses@[case_id@]
            == CaseStatus::Federated,
{
    if state.proofs.contains_key(case_id) {
        return Ok(());
    }
    match CaseService::enqueue_document_event(state, case_id, entry_task_cid()) {
        Ok(()) => {},
        Err(e) => {
            return Err(e);
        },
    }
    let report = match CaseService::run_case_once(state, case_id) {
        Ok(rep) => rep,
        Err(e) => {
            return Err(e);
        },
    };
    if report.witness_required {
        match WitnessService::resolve_binary_confirm(state, case_id, true) {
            Ok(_) => {},
            Err(e) => {
                return Err(e);
            },
        }
        match WitnessService::resolve_field_fill(state, case_id, "DOC-99821") {
            Ok(_) => {},
            Err(e) => {
                return Err(e);
            },
        }
        match WitnessService::resolve_approval(state, case_id, true) {
            Ok(_) => {},
            Err(e) => {
                return Err(e);
            },
        }
    }
    match FederationService::announce_and_validate(state, case_id) {
        Ok(_) => {},
        Err(e) => {
            return Err(e);
        },
    }
    Ok(())
}

} // verus!
