//! The state of the manager application: cases, proofs, heat, timelines, witnesses and federation.

use vstd::prelude::*;

use crate::federation::{AcceptanceReceipt, PointerAnnouncement, PointerFork};
use crate::ids::{BudgetAmount, CaseId, Cid, ProofPackCid, ReceiptCid};
use crate::keyed_map::{KeyedMap, MapKey};
use crate::manager::{block_reason_label, BudgetState, DemoManagerPlane, ManagedCase};
use crate::session::{copy_receipt_cid, copy_cid_opt, ProofPack};
use crate::storage::EpistemicHeat;

verus! {

/// Where a case stands in the queue.
#[derive(Debug, Clone, Copy, PartialEq, Eq, Structural)]
pub enum CaseStatus {
    New,
    Running,
    BlockedOnEvidence,
    BlockedOnWitness,
    BlockedOnFederation,
    Committed,
    Rejected,
    Federated,
    Forked,
}

/// The typed question a witness answers.
#[derive(Debug, Clone)]
pub enum WitnessKind {
    BinaryConfirm { question: String, positive_label: String, negative_label: String },
    FieldFill { field_name: String, prompt: String },
    ApproveReject { reason: String },
}

/// A question waiting for a human witness.
#[derive(Debug, Clone)]
pub struct WitnessTask {
    pub witness_id: Cid,
    pub case_id: CaseId,
    pub prompt_cid: Cid,
    pub kind: WitnessKind,
}

/// The label of a witness kind.
pub open spec fn kind_label_of(k: WitnessKind) -> Seq<char> {
    match k {
        WitnessKind::BinaryConfirm { .. } => "binary_confirm"@,
        WitnessKind::FieldFill { .. } => "field_fill"@,
        WitnessKind::ApproveReject { .. } => "approve_reject"@,
    }
}

impl WitnessTask {
    /// The label of the task's kind.
    pub fn kind_label(&self) -> (s: &'static str)
        ensures
            s@ == kind_label_of(self.kind),
    {
        match self.kind {
            WitnessKind::BinaryConfirm { .. } => "binary_confirm",
            WitnessKind::FieldFill { .. } => "field_fill",
            WitnessKind::ApproveReject { .. } => "approve_reject",
        }
    }
}

/// A completion held back until its witnesses are resolved.
#[derive(Debug, Clone)]
pub struct PendingCompletion {
    pub receipt_cid: ReceiptCid,
    pub proof_pack_cid: ProofPackCid,
    pub required_witness_ids: Vec<Cid>,
    pub resolved_witness_ids: Vec<Cid>,
}

/// The required witnesses are distinct, the resolved ones are distinct and all required.
pub open spec fn pending_well_formed(p: PendingCompletion) -> bool {
    &&& crate::transcript::cid_texts(p.required_witness_ids@).no_duplicates()
    &&& crate::transcript::cid_texts(p.resolved_witness_ids@).no_duplicates()
    &&& forall|i: int|
        0 <= i < p.resolved_witness_ids@.len() ==> crate::transcript::cid_texts(p.required_witness_ids@).contains(
            #[trigger] crate::transcript::cid_texts(p.resolved_witness_ids@)[i],
        )
}

/// One line of a case's worker ledger.
#[derive(Debug, Clone)]
pub struct WorkerLedgerEntry {
    pub stage: String,
    pub action: String,
    pub worker_cid: Cid,
    pub task_cid: Cid,
    pub insight: String,
    pub artifact_cids: Vec<Cid>,
}

/// A worker ledger line as plain text values.
pub struct LedgerModel {
    pub stage: Seq<char>,
    pub action: Seq<char>,
    pub worker: Seq<char>,
    pub task: Seq<char>,
    pub insight: Seq<char>,
    pub artifacts: Seq<Seq<char>>,
}

impl View for WorkerLedgerEntry {
    type V = LedgerModel;

    open spec fn view(&self) -> LedgerModel {
        LedgerModel {
            stage: self.stage@,
            action: self.action@,
            worker: self.worker_cid@,
            task: self.task_cid@,
            insight: self.insight@,
            artifacts: crate::transcript::cid_texts(self.artifact_cids@),
        }
    }
}

/// What the queue shows of a case.
#[derive(Debug, Clone)]
pub struct CaseSummary {
    pub case_id: CaseId,
    pub status: CaseStatus,
    pub budget_remaining: BudgetAmount,
    pub head: Option<Cid>,
    pub blocked_reason: Option<String>,
    pub last_receipt: Option<ReceiptCid>,
}

/// The application's state.
#[derive(Debug)]
pub struct AppState {
    pub manager: DemoManagerPlane,
    pub statuses: KeyedMap<String, CaseStatus>,
    pub proofs: KeyedMap<String, ProofPack>,
    pub hot_atoms_by_case: KeyedMap<String, Vec<Cid>>,
    pub case_atom_heat: KeyedMap<String, KeyedMap<Cid, EpistemicHeat>>,
    pub case_timeline: KeyedMap<String, Vec<String>>,
    pub worker_ledger_by_case: KeyedMap<String, Vec<WorkerLedgerEntry>>,
    pub pending_completions: KeyedMap<String, PendingCompletion>,
    pub witness_inbox: Vec<WitnessTask>,
    pub federation_log: Vec<String>,
    pub pointer_announcements: Vec<PointerAnnouncement>,
    pub acceptance_receipts: Vec<AcceptanceReceipt>,
    pub fork_registry: Vec<PointerFork>,
    pub replay_log: Vec<String>,
}

/// Nothing is recorded yet, apart from what the manager and the statuses hold.
pub open spec fn records_empty(s: AppState) -> bool {
    &&& s.proofs@ == Map::<Seq<char>, ProofPack>::empty()
    &&& s.hot_atoms_by_case@ == Map::<Seq<char>, Vec<Cid>>::empty()
    &&& s.case_atom_heat@ == Map::<Seq<char>, KeyedMap<Cid, EpistemicHeat>>::empty()
    &&& s.case_timeline@ == Map::<Seq<char>, Vec<String>>::empty()
    &&& s.worker_ledger_by_case@ == Map::<Seq<char>, Vec<WorkerLedgerEntry>>::empty()
    &&& s.pending_completions@ == Map::<Seq<char>, PendingCompletion>::empty()
    &&& s.witness_inbox@.len() == 0
    &&& s.federation_log@.len() == 0
    &&& s.pointer_announcements@.len() == 0
    &&& s.acceptance_receipts@.len() == 0
    &&& s.fork_registry@.len() == 0
    &&& s.replay_log@.len() == 0
}

impl Default for AppState {
    fn default() -> (s: Self)
        ensures
            records_empty(s),
            s.statuses@ == Map::<Seq<char>, CaseStatus>::empty(),
            s.manager.cases@ == Map::<Seq<char>, ManagedCase>::empty(),
            s.manager.inbox@.len() == 0,
    {
        AppState {
            manager: DemoManagerPlane::default(),
            statuses: KeyedMap::new(),
            proofs: KeyedMap::new(),
            hot_atoms_by_case: KeyedMap::new(),
            case_atom_heat: KeyedMap::new(),
            case_timeline: KeyedMap::new(),
            worker_ledger_by_case: KeyedMap::new(),
            pending_completions: KeyedMap::new(),
            witness_inbox: Vec::new(),
            federation_log: Vec::new(),
            pointer_announcements: Vec::new(),
            acceptance_receipts: Vec::new(),
            fork_registry: Vec::new(),
            replay_log: Vec::new(),
        }
    }
}

/// The texts of a list of strings.
pub open spec fn texts(v: Seq<String>) -> Seq<Seq<char>> {
    v.map_values(|s: String| s@)
}

/// The timeline lines of a case (none when it has no timeline).
pub open spec fn lines_of(m: Map<Seq<char>, Vec<String>>, case_id: Seq<char>) -> Seq<Seq<char>> {
    if m.contains_key(case_id) {
        texts(m[case_id]@)
    } else {
        seq![]
    }
}

/// Adds a line at the end of the case's timeline, starting the timeline if the case has none.
pub fn push_timeline(timeline: &mut KeyedMap<String, Vec<String>>, case_id: &str, line: String)
    ensures
        final(timeline)@.contains_key(case_id@),
        final(timeline)@ == old(timeline)@.insert(case_id@, final(timeline)@[case_id@]),
        texts(final(timeline)@[case_id@]@) == lines_of(old(timeline)@, case_id@).push(line@),
{
    let mut lines = match timeline.remove(case_id) {
        Some(v) => v,
        None => Vec::new(),
    };
    let ghost before = lines@;
    lines.push(line);
    proof {
        assert(texts(lines@) =~= texts(before).push(line@));
    }
    timeline.insert(case_id.to_string(), lines);
    proof {
        assert(timeline@ =~= old(timeline)@.insert(case_id@, timeline@[case_id@]));
    }
}

/// The federation records and the replay log are left as they were.
pub open spec fn federation_unchanged(a: AppState, b: AppState) -> bool {
    &&& b.federation_log@ == a.federation_log@
    &&& b.pointer_announcements@ == a.pointer_announcements@
    &&& b.acceptance_receipts@ == a.acceptance_receipts@
    &&& b.fork_registry@ == a.fork_registry@
    &&& b.replay_log@ == a.replay_log@
}

/// The records of case runs (proofs, heat, timelines, ledgers) are left as they were.
pub open spec fn runs_unchanged(a: AppState, b: AppState) -> bool {
    &&& b.proofs@ == a.proofs@
    &&& b.hot_atoms_by_case@ == a.hot_atoms_by_case@
    &&& b.case_atom_heat@ == a.case_atom_heat@
    &&& b.case_timeline@ == a.case_timeline@
    &&& b.worker_ledger_by_case@ == a.worker_ledger_by_case@
}

/// The records of case runs other than the timelines are left as they were.
pub open spec fn runs_unchanged_but_timeline(a: AppState, b: AppState) -> bool {
    &&& b.proofs@ == a.proofs@
    &&& b.hot_atoms_by_case@ == a.hot_atoms_by_case@
    &&& b.case_atom_heat@ == a.case_atom_heat@
    &&& b.worker_ledger_by_case@ == a.worker_ledger_by_case@
}

/// The witness records (pending completions and the inbox) are left as they were.
pub open spec fn witnesses_unchanged(a: AppState, b: AppState) -> bool {
    &&& b.pending_completions@ == a.pending_completions@
    &&& b.witness_inbox@ == a.witness_inbox@
}

/// The seeded case.
pub open spec fn seeded_case_id() -> Seq<char> {
    "case-doc-001"@
}

/// The status of a case: the recorded one, or new.
pub open spec fn status_of(s: AppState, case_id: Seq<char>) -> CaseStatus {
    if s.statuses@.contains_key(case_id) {
        s.statuses@[case_id]
    } else {
        CaseStatus::New
    }
}

/// The summary describes the case as the state holds it.
pub open spec fn summary_fits(s: AppState, case_id: Seq<char>, sum: CaseSummary) -> bool {
    let case = s.manager.cases@[case_id];
    &&& sum.case_id == case.case_id
    &&& sum.status == status_of(s, case_id)
    &&& sum.budget_remaining == case.active_budget.gas_remaining
    &&& sum.head == case.current_head_cid
    &&& sum.blocked_reason.deep_view() == match case.blocked_on {
        Some(r) => Some(block_reason_label(r)),
        None => None,
    }
    &&& sum.last_receipt == (if s.proofs@.contains_key(case_id) {
        s.proofs@[case_id].final_receipt_cid
    } else {
        None
    })
}

impl AppState {
    /// A state with one new case, `case-doc-001`, with 80 gas and no head.
    pub fn new_seeded() -> (s: Self)
        ensures
            records_empty(s),
            s.manager.inbox@.len() == 0,
            s.manager.cases@.dom() == set![seeded_case_id()],
            s.statuses@ == map![seeded_case_id() => CaseStatus::New],
            ({
                let case = s.manager.cases@[seeded_case_id()];
                &&& case.case_id@ == seeded_case_id()
                &&& case.state_root@ == "cid:state:case-doc-001"@
                &&& case.current_head_cid is None
                &&& case.active_budget == (BudgetState {
                    gas_remaining: BudgetAmount(80),
                    max_parallel_workers: 2,
                    max_open_cases: 16,
                    max_human_interrupts: 2,
                })
                &&& case.pending_events@.len() == 0
                &&& case.pending_actions@.len() == 0
                &&& case.latest_proof_pack_cid is None
                &&& case.blocked_on is None
            }),
    {
        let mut state = AppState::default();
        let case_id = "case-doc-001";
        proof {
            reveal_strlit("case-doc-001");
        }
        state.manager.cases.insert(
            case_id.to_string(),
            ManagedCase {
                case_id: CaseId::new(case_id),
                state_root: Cid::new("cid:state:case-doc-001"),
                current_head_cid: None,
                active_budget: BudgetState {
                    gas_remaining: BudgetAmount(80),
                    max_parallel_workers: 2,
                    max_open_cases: 16,
                    max_human_interrupts: 2,
                },
                pending_events: Vec::new(),
                pending_actions: Vec::new(),
                latest_proof_pack_cid: None,
                blocked_on: None,
            },
        );
        state.statuses.insert(case_id.to_string(), CaseStatus::New);
        proof {
            assert(state.manager.cases@.dom() =~= set![seeded_case_id()]);
            assert(state.statuses@ =~= map![seeded_case_id() => CaseStatus::New]);
        }
        state
    }

    /// The summary of a known case.
    pub fn case_summary(&self, case_id: &str) -> (r: Option<CaseSummary>)
        ensures
            r is None <==> !self.manager.cases@.contains_key(case_id@),
            r matches Some(sum) ==> summary_fits(*self, case_id@, sum),
    {
        let case = match self.manager.cases.get(case_id) {
            Some(c) => c,
            None => {
                return None;
            },
        };
        let status = match self.statuses.get(case_id) {
            Some(s) => *s,
            None => CaseStatus::New,
        };
        let last_receipt = match self.proofs.get(case_id) {
            Some(p) => copy_receipt_cid(&p.final_receipt_cid),
            None => None,
        };
        let blocked_reason = match case.blocked_on {
            Some(r) => Some(r.label().to_string()),
            None => None,
        };
        Some(CaseSummary {
            case_id: case.case_id.clone(),
            status,
            budget_remaining: case.active_budget.gas_remaining,
            head: copy_cid_opt(&case.current_head_cid),
            blocked_reason,
            last_receipt,
        })
    }

    /// The summaries of all cases, in the manager's order.
    pub fn queue(&self) -> (q: Vec<CaseSummary>)
        ensures
            q@.len() == self.manager.cases.pairs().len(),
            forall|i: int| 0 <= i < q@.len() ==> summary_fits(*self, #[trigger] self.manager.cases.pairs()[i].0@, q@[i]),
    {
        let n = self.manager.cases.len();
        let mut out: Vec<CaseSummary> = Vec::new();
        let mut i: usize = 0;
        while i < n
            invariant
                n == self.manager.cases.pairs().len(),
                i <= n,
                out@.len() == i,
                forall|k: Seq<char>| #[trigger] self.manager.cases@.contains_key(k) ==> crate::keyed_map::has_key(self.manager.cases.pairs(), k),
                forall|j: int| 0 <= j < n ==> #[trigger] self.manager.cases@.contains_key(self.manager.cases.pairs()[j].0.key_view()),
                forall|j: int| 0 <= j < i ==> summary_fits(*self, #[trigger] self.manager.cases.pairs()[j].0@, out@[j]),
            decreases n - i,
        {
            let (id, _) = self.manager.cases.entry_at(i);
            assert(self.manager.cases@.contains_key(self.manager.cases.pairs()[i as int].0.key_view()));
            match self.case_summary(id.as_str()) {
                Some(sum) => out.push(sum),
                None => {},
            }
            i += 1;
        }
        out
    }
}

} // verus!
