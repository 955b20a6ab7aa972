//! Resolving typed witnesses: a case's completion is held until every required witness answered.

use vstd::prelude::*;

use crate::ids::Cid;
use crate::keyed_map::KeyedMap;
use crate::manager::{case_alias, ManagedCase, ManagerInput, ManagerOutput, ManagerPlane};
use crate::manager_app::app_state::{kind_label_of, lines_of, pending_well_formed, push_timeline, texts, AppState, CaseStatus, PendingCompletion, WitnessKind, WitnessTask};
use crate::text::{decimal, decimal_text, same_text};
use crate::transcript::cid_texts;

verus! {

/// The typed witness operations of the application.
pub struct WitnessService;

/// Which kind of witness an answer is for.
#[derive(Debug, Clone, Copy, PartialEq, Eq, Structural)]
pub enum WitnessSelector {
    BinaryConfirm,
    FieldFill,
    ApproveReject,
}

/// The witness kind is the selected one.
pub open spec fn kind_selected(k: WitnessKind, sel: WitnessSelector) -> bool {
    match sel {
        WitnessSelector::BinaryConfirm => k is BinaryConfirm,
        WitnessSelector::FieldFill => k is FieldFill,
        WitnessSelector::ApproveReject => k is ApproveReject,
    }
}

/// The task belongs to the case and is of the selected kind.
pub open spec fn task_selected(t: WitnessTask, case_id: Seq<char>, sel: WitnessSelector) -> bool {
    t.case_id@ == case_id && kind_selected(t.kind, sel)
}

/// Some task of the inbox is selected.
pub open spec fn has_selected(inbox: Seq<WitnessTask>, case_id: Seq<char>, sel: WitnessSelector) -> bool {
    exists|i: int| 0 <= i < inbox.len() && #[trigger] task_selected(inbox[i], case_id, sel)
}

/// Task `i` is the first selected one of the inbox.
pub open spec fn is_first_selected(inbox: Seq<WitnessTask>, case_id: Seq<char>, sel: WitnessSelector, i: int) -> bool {
    &&& 0 <= i < inbox.len()
    &&& task_selected(inbox[i], case_id, sel)
    &&& forall|j: int| 0 <= j < i ==> !#[trigger] task_selected(inbox[j], case_id, sel)
}

/// The position of the first selected task.
pub open spec fn first_selected(inbox: Seq<WitnessTask>, case_id: Seq<char>, sel: WitnessSelector) -> int {
    choose|i: int| is_first_selected(inbox, case_id, sel, i)
}

/// The resolved witnesses of a pending completion once `w` is recorded.
pub open spec fn resolved_after(p: PendingCompletion, w: Seq<char>) -> Seq<Seq<char>> {
    let r = cid_texts(p.resolved_witness_ids@);
    if r.contains(w) {
        r
    } else {
        r.push(w)
    }
}

/// How many witnesses are still missing once `w` is recorded (never below zero).
pub open spec fn remaining_after(p: PendingCompletion, w: Seq<char>) -> nat {
    let n = p.required_witness_ids@.len();
    let m = resolved_after(p, w).len();
    if n >= m {
        (n - m) as nat
    } else {
        0
    }
}

/// The timeline line of a resolved witness.
pub open spec fn resolve_line(w: WitnessTask, response: Seq<char>) -> Seq<char> {
    "witness action=resolve witness_id="@ + w.witness_id@ + " kind="@ + kind_label_of(w.kind) + " response="@ + response
}

/// The timeline line of the pointer advanced once all witnesses are resolved.
pub open spec fn advance_line(case_id: Seq<char>, head: Seq<char>) -> Seq<char> {
    "witness-resolved action=advance-pointer alias="@ + case_alias(case_id) + " head="@ + head + " proof_pack="@
        + head
}

/// The manager's cases, the pending completions, the statuses and the timelines are as they were.
pub open spec fn case_records_unchanged(old: AppState, new: AppState) -> bool {
    &&& new.manager.cases@ == old.manager.cases@
    &&& new.pending_completions@ == old.pending_completions@
    &&& new.statuses@ == old.statuses@
}

/// The effect of resolving the first selected witness of a case with a response.
pub open spec fn resolve_effect(
    old: AppState,
    new: AppState,
    case_id: Seq<char>,
    sel: WitnessSelector,
    response: Seq<char>,
    r: Result<String, String>,
) -> bool {
    if !has_selected(old.witness_inbox@, case_id, sel) {
        &&& r matches Err(e) && e@ == "matching witness not found for "@ + case_id
        &&& new.witness_inbox@ == old.witness_inbox@
        &&& new.manager.inbox@ == old.manager.inbox@
        &&& new.case_timeline@ == old.case_timeline@
        &&& case_records_unchanged(old, new)
    } else {
        let i = first_selected(old.witness_inbox@, case_id, sel);
        let w = old.witness_inbox@[i];
        let line = resolve_line(w, response);
        let inbox1 = old.manager.inbox@.push(ManagerInput::Witness(w.prompt_cid));
        let p = old.pending_completions@[case_id];
        &&& new.witness_inbox@ == old.witness_inbox@.remove(i)
        &&& new.case_timeline@.contains_key(case_id)
        &&& new.case_timeline@ == old.case_timeline@.insert(case_id, new.case_timeline@[case_id])
        &&& if !old.pending_completions@.contains_key(case_id) {
            &&& r matches Err(e) && e@ == "no pending completion for "@ + case_id
            &&& new.manager.inbox@ == inbox1
            &&& texts(new.case_timeline@[case_id]@) == lines_of(old.case_timeline@, case_id).push(line)
            &&& case_records_unchanged(old, new)
        } else if !cid_texts(p.required_witness_ids@).contains(w.witness_id@) {
            &&& r matches Err(e) && e@ == "witness "@ + w.witness_id@ + " is not required for case "@ + case_id
            &&& new.manager.inbox@ == inbox1
            &&& texts(new.case_timeline@[case_id]@) == lines_of(old.case_timeline@, case_id).push(line)
            &&& case_records_unchanged(old, new)
        } else if remaining_after(p, w.witness_id@) > 0 {
            let q = new.pending_completions@[case_id];
            &&& r matches Ok(m) && m@ == "witness recorded; waiting "@ + decimal(remaining_after(p, w.witness_id@))
                + " additional witness(es)"@
            &&& new.manager.inbox@ == inbox1
            &&& new.manager.cases@ == old.manager.cases@
            &&& texts(new.case_timeline@[case_id]@) == lines_of(old.case_timeline@, case_id).push(line)
            &&& new.pending_completions@ == old.pending_completions@.insert(case_id, q)
            &&& q.receipt_cid == p.receipt_cid
            &&& q.proof_pack_cid == p.proof_pack_cid
            &&& q.required_witness_ids@ == p.required_witness_ids@
            &&& cid_texts(q.resolved_witness_ids@) == resolved_after(p, w.witness_id@)
            &&& new.statuses@ == old.statuses@.insert(case_id, CaseStatus::BlockedOnWitness)
        } else {
            let inbox2 = inbox1.push(
                ManagerInput::WorkerCompleted { receipt_cid: p.receipt_cid, proof_pack_cid: p.proof_pack_cid },
            );
            &&& new.pending_completions@ == old.pending_completions@.remove(case_id)
            &&& new.manager.inbox@ == inbox2
            &&& if old.manager.cases@.contains_key(case_id) && old.manager.cases@[case_id].current_head_cid is None {
                let c = old.manager.cases@[case_id];
                let head = new.manager.cases@[case_id].current_head_cid;
                &&& r matches Ok(m) && m@ == "all witnesses resolved; pointer advanced"@
                &&& head matches Some(h) && h@ == p.proof_pack_cid@
                &&& new.manager.cases@ == old.manager.cases@.insert(
                    case_id,
                    ManagedCase { current_head_cid: head, latest_proof_pack_cid: Some(p.proof_pack_cid), ..c },
                )
                &&& texts(new.case_timeline@[case_id]@) == lines_of(old.case_timeline@, case_id).push(line).push(
                    advance_line(case_id, p.proof_pack_cid@),
                )
                &&& new.statuses@ == old.statuses@.insert(case_id, CaseStatus::Committed)
            } else {
                &&& r is Err
                &&& new.manager.cases@ == old.manager.cases@
                &&& texts(new.case_timeline@[case_id]@) == lines_of(old.case_timeline@, case_id).push(line)
                &&& new.statuses@ == old.statuses@
            }
        }
    }
}

/// Once every required witness of a well-formed pending completion is counted as resolved,
/// each of them was indeed resolved: a case is unblocked only after all its typed witnesses.
pub proof fn law_unblocks_only_after_all_witnesses(p: PendingCompletion, w: Seq<char>)
    requires
        pending_well_formed(p),
        cid_texts(p.required_witness_ids@).contains(w),
        remaining_after(p, w) == 0,
    ensures
        forall|x: Seq<char>| cid_texts(p.required_witness_ids@).contains(x) ==> #[trigger] resolved_after(p, w).contains(x),
{
    let req = cid_texts(p.required_witness_ids@);
    let res = resolved_after(p, w);
    let old_res = cid_texts(p.resolved_witness_ids@);
    assert(res.no_duplicates()) by {
        if !old_res.contains(w) {
            assert forall|i: int, j: int| 0 <= i < res.len() && 0 <= j < res.len() && i != j implies res[i] != res[j] by {
                if i < old_res.len() && j < old_res.len() {
                } else if i == old_res.len() {
                    assert(old_res[j] == res[j]);
                } else {
                    assert(old_res[i] == res[i]);
                }
            }
        }
    }
    assert forall|x: Seq<char>| res.to_set().contains(x) implies req.to_set().contains(x) by {
        let k = choose|k: int| 0 <= k < res.len() && res[k] == x;
        if k < old_res.len() {
            assert(old_res[k] == res[k]);
            assert(req.contains(old_res[k]));
        }
    }
    assert(res.to_set().subset_of(req.to_set()));
    res.unique_seq_to_set();
    req.unique_seq_to_set();
    assert forall|x: Seq<char>| req.contains(x) implies #[trigger] res.contains(x) by {
        if !res.contains(x) {
            assert(req.to_set().contains(x));
            assert(!res.to_set().contains(x));
            res.to_set().lemma_subset_not_in_lt(req.to_set(), x);
        }
    }
}

/// A case's head is set by resolving a witness only once every witness its pending
/// completion requires has been resolved: a case unblocks only after all its typed witnesses.
pub proof fn law_head_set_only_after_all_witnesses(
    old: AppState,
    new: AppState,
    case_id: Seq<char>,
    sel: WitnessSelector,
    response: Seq<char>,
    r: Result<String, String>,
)
    requires
        resolve_effect(old, new, case_id, sel, response, r),
        old.pending_completions@.contains_key(case_id) ==> pending_well_formed(old.pending_completions@[case_id]),
        old.manager.cases@.contains_key(case_id),
        old.manager.cases@[case_id].current_head_cid is None,
        new.manager.cases@[case_id].current_head_cid is Some,
    ensures
        has_selected(old.witness_inbox@, case_id, sel),
        old.pending_completions@.contains_key(case_id),
        ({
            let w = old.witness_inbox@[first_selected(old.witness_inbox@, case_id, sel)];
            let p = old.pending_completions@[case_id];
            forall|x: Seq<char>|
                cid_texts(p.required_witness_ids@).contains(x) ==> #[trigger] resolved_after(p, w.witness_id@).contains(x)
        }),
{
    let w = old.witness_inbox@[first_selected(old.witness_inbox@, case_id, sel)];
    let p = old.pending_completions@[case_id];
    law_unblocks_only_after_all_witnesses(p, w.witness_id@);
}

fn task_matches(t: &WitnessTask, case_id: &str, sel: WitnessSelector) -> (b: bool)
    ensures
        b == task_selected(*t, case_id@, sel),
{
    let kind_ok = match sel {
        WitnessSelector::BinaryConfirm => matches!(t.kind, WitnessKind::BinaryConfirm { .. }),
        WitnessSelector::FieldFill => matches!(t.kind, WitnessKind::FieldFill { .. }),
        WitnessSelector::ApproveReject => matches!(t.kind, WitnessKind::ApproveReject { .. }),
    };
    kind_ok && same_text(t.case_id.as_str(), case_id)
}

fn cid_listed(v: &Vec<Cid>, c: &Cid) -> (b: bool)
    ensures
        b == cid_texts(v@).contains(c@),
{
    let mut i: usize = 0;
    while i < v.len()
        invariant
            i <= v@.len(),
            forall|j: int| 0 <= j < i ==> v@[j]@ != c@,
        decreases v@.len() - i,
    {
        if v[i].same(c) {
            assert(cid_texts(v@)[i as int] == c@);
            return true;
        }
        i += 1;
    }
    assert forall|j: int| 0 <= j < cid_texts(v@).len() implies cid_texts(v@)[j] != c@ by {
        assert(v@[j]@ != c@);
    }
    false
}

impl WitnessService {
    fn resolve_one(state: &mut AppState, case_id: &str, sel: WitnessSelector, response_label: String) -> (r: Result<
        String,
        String,
    >)
        ensures
            resolve_effect(*old(state), *final(state), case_id@, sel, response_label@, r),
            crate::manager_app::app_state::runs_unchanged_but_timeline(*old(state), *final(state)),
            crate::manager_app::app_state::federation_unchanged(*old(state), *final(state)),
            old(state).pending_completions@.contains_key(case_id@) && pending_well_formed(
                old(state).pending_completions@[case_id@],
            ) && final(state).pending_completions@.contains_key(case_id@) ==> pending_well_formed(
                final(state).pending_completions@[case_id@],
            ),
    {
        let n = state.witness_inbox.len();
        let mut pos: usize = 0;
        while pos < n && !task_matches(&state.witness_inbox[pos], case_id, sel)
            invariant
                n == state.witness_inbox@.len(),
                pos <= n,
                forall|j: int| 0 <= j < pos ==> !#[trigger] task_selected(state.witness_inbox@[j], case_id@, sel),
            decreases n - pos,
        {
            pos += 1;
        }
        if pos == n {
            proof {
                assert(!has_selected(state.witness_inbox@, case_id@, sel));
            }
            return Err("matching witness not found for ".to_string().concat(case_id));
        }
        proof {
            assert(is_first_selected(state.witness_inbox@, case_id@, sel, pos as int));
            let i = first_selected(state.witness_inbox@, case_id@, sel);
            assert(is_first_selected(state.witness_inbox@, case_id@, sel, i));
            if i < pos {
                assert(!task_selected(state.witness_inbox@[i], case_id@, sel));
            } else if i > pos {
                assert(!task_selected(state.witness_inbox@[pos as int], case_id@, sel));
            }
        }
        let witness = state.witness_inbox.remove(pos);
        match state.manager.ingest(ManagerInput::Witness(witness.prompt_cid.clone())) {
            Ok(()) => {},
            Err(e) => {
                return Err("witness ingest failed: ".to_string().concat(e.as_str()));
            },
        }
        let line = "witness action=resolve witness_id=".to_string().concat(witness.witness_id.as_str()).concat(
            " kind=",
        ).concat(witness.kind_label()).concat(" response=").concat(response_label.as_str());
        push_timeline(&mut state.case_timeline, case_id, line);
        let mut pending = match state.pending_completions.remove(case_id) {
            Some(p) => p,
            None => {
                assert(state.pending_completions@ =~= old(state).pending_completions@);
                return Err("no pending completion for ".to_string().concat(case_id));
            },
        };
        let ghost p0 = pending;
        if !cid_listed(&pending.required_witness_ids, &witness.witness_id) {
            let msg = "witness ".to_string().concat(witness.witness_id.as_str()).concat(" is not required for case ").concat(
                case_id,
            );
            state.pending_completions.insert(case_id.to_string(), pending);
            proof {
                assert(state.pending_completions@ =~= old(state).pending_completions@);
            }
            return Err(msg);
        }
        if !cid_listed(&pending.resolved_witness_ids, &witness.witness_id) {
            pending.resolved_witness_ids.push(witness.witness_id.clone());
            proof {
                assert(cid_texts(pending.resolved_witness_ids@) =~= cid_texts(p0.resolved_witness_ids@).push(
                    witness.witness_id@,
                ));
            }
        }
        let required = pending.required_witness_ids.len();
        let resolved = pending.resolved_witness_ids.len();
        let remaining = if required >= resolved {
            required - resolved
        } else {
            0
        };
        if remaining != 0 {
            proof {
                if pending_well_formed(p0) {
                    let res = cid_texts(pending.resolved_witness_ids@);
                    let old_res = cid_texts(p0.resolved_witness_ids@);
                    if !old_res.contains(witness.witness_id@) {
                        assert forall|i: int, j: int| 0 <= i < res.len() && 0 <= j < res.len() && i != j implies res[i]
                            != res[j] by {
                            if i < old_res.len() && j < old_res.len() {
                                assert(old_res[i] == res[i] && old_res[j] == res[j]);
                            } else if i == old_res.len() {
                                assert(old_res[j] == res[j]);
                            } else {
                                assert(old_res[i] == res[i]);
                            }
                        }
                        assert forall|i: int| 0 <= i < res.len() implies cid_texts(
                            pending.required_witness_ids@,
                        ).contains(#[trigger] res[i]) by {
                            if i < old_res.len() {
                                assert(old_res[i] == res[i]);
                            }
                        }
                    }
                }
            }
            state.pending_completions.insert(case_id.to_string(), pending);
            state.statuses.insert(case_id.to_string(), CaseStatus::BlockedOnWitness);
            proof {
                assert(state.pending_completions@ =~= old(state).pending_completions@.insert(
                    case_id@,
                    state.pending_completions@[case_id@],
                ));
            }
            return Ok(
                "witness recorded; waiting ".to_string().concat(decimal_text(remaining as u64).as_str()).concat(
                    " additional witness(es)",
                ),
            );
        }
        let ghost inbox1 = state.manager.inbox@;
        match state.manager.ingest(
            ManagerInput::WorkerCompleted { receipt_cid: pending.receipt_cid, proof_pack_cid: pending.proof_pack_cid },
        ) {
            Ok(()) => {},
            Err(e) => {
                return Err("completion ingest failed: ".to_string().concat(e.as_str()));
            },
        }
        let output = match state.manager.evaluate_next(case_id) {
            Ok(o) => o,
            Err(e) => {
                return Err("manager evaluate after witness failed: ".to_string().concat(e.as_str()));
            },
        };
        match output {
            ManagerOutput::AdvancePointer { alias, head_cid, proof_pack_cid } => {
                match state.manager.cases.remove(case_id) {
                    Some(mut case) => {
                        case.current_head_cid = Some(head_cid.clone());
                        state.manager.cases.insert(case_id.to_string(), case);
                    },
                    None => {},
                }
                proof {
                    assert(state.manager.cases@ =~= old(state).manager.cases@.insert(
                        case_id@,
                        ManagedCase {
                            current_head_cid: state.manager.cases@[case_id@].current_head_cid,
                            latest_proof_pack_cid: Some(p0.proof_pack_cid),
                            ..old(state).manager.cases@[case_id@]
                        },
                    ));
                }
                let line = "witness-resolved action=advance-pointer alias=".to_string().concat(alias.as_str()).concat(
                    " head=",
                ).concat(head_cid.as_str()).concat(" proof_pack=").concat(proof_pack_cid.as_str());
                push_timeline(&mut state.case_timeline, case_id, line);
                state.statuses.insert(case_id.to_string(), CaseStatus::Committed);
                proof {
                    assert(state.case_timeline@ =~= old(state).case_timeline@.insert(
                        case_id@,
                        state.case_timeline@[case_id@],
                    ));
                }
                Ok("all witnesses resolved; pointer advanced".to_string())
            },
            other => Err(
                "expected AdvancePointer after witness completion, got ".to_string().concat(
                    other.debug_text().as_str(),
                ),
            ),
        }
    }

    /// Answers the yes-or-no witness of a case: `A` when accepted, `B` otherwise.
    pub fn resolve_binary_confirm(state: &mut AppState, case_id: &str, accepted: bool) -> (r: Result<String, String>)
        ensures
            resolve_effect(
                *old(state),
                *final(state),
                case_id@,
                WitnessSelector::BinaryConfirm,
                if accepted {
                    "A"@
                } else {
                    "B"@
                },
                r,
            ),
            crate::manager_app::app_state::federation_unchanged(*old(state), *final(state)),
            crate::manager_app::app_state::runs_unchanged_but_timeline(*old(state), *final(state)),
            old(state).pending_completions@.contains_key(case_id@) && pending_well_formed(
                old(state).pending_completions@[case_id@],
            ) && final(state).pending_completions@.contains_key(case_id@) ==> pending_well_formed(
                final(state).pending_completions@[case_id@],
            ),
    {
        let label = if accepted {
            "A"
        } else {
            "B"
        };
        Self::resolve_one(state, case_id, WitnessSelector::BinaryConfirm, label.to_string())
    }

    /// Fills in the missing field of a case: the response is `value=` and the value.
    pub fn resolve_field_fill(state: &mut AppState, case_id: &str, value: &str) -> (r: Result<String, String>)
        ensures
            resolve_effect(*old(state), *final(state), case_id@, WitnessSelector::FieldFill, "value="@ + value@, r),
            crate::manager_app::app_state::federation_unchanged(*old(state), *final(state)),
            crate::manager_app::app_state::runs_unchanged_but_timeline(*old(state), *final(state)),
            old(state).pending_completions@.contains_key(case_id@) && pending_well_formed(
                old(state).pending_completions@[case_id@],
            ) && final(state).pending_completions@.contains_key(case_id@) ==> pending_well_formed(
                final(state).pending_completions@[case_id@],
            ),
    {
        Self::resolve_one(state, case_id, WitnessSelector::FieldFill, "value=".to_string().concat(value))
    }

    /// Approves or rejects the policy exception of a case.
    pub fn resolve_approval(state: &mut AppState, case_id: &str, approved: bool) -> (r: Result<String, String>)
        ensures
            resolve_effect(
                *old(state),
                *final(state),
                case_id@,
                WitnessSelector::ApproveReject,
                if approved {
                    "approved"@
                } else {
                    "rejected"@
                },
                r,
            ),
            crate::manager_app::app_state::federation_unchanged(*old(state), *final(state)),
            crate::manager_app::app_state::runs_unchanged_but_timeline(*old(state), *final(state)),
            old(state).pending_completions@.contains_key(case_id@) && pending_well_formed(
                old(state).pending_completions@[case_id@],
            ) && final(state).pending_completions@.contains_key(case_id@) ==> pending_well_formed(
                final(state).pending_completions@[case_id@],
            ),
    {
        let label = if approved {
            "approved"
        } else {
            "rejected"
        };
        Self::resolve_one(state, case_id, WitnessSelector::ApproveReject, label.to_string())
    }
}

} // verus!
