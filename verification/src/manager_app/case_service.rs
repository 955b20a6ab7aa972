//! Running a case: delegate, execute the document stages, and project the transcript into an
//! operational timeline and a worker ledger.

use vstd::prelude::*;

use crate::ids::{CaseId, Cid, ProofPackCid};
use crate::keyed_map::{KeyedMap, MapKey};
use crate::manager::{ManagerInput, ManagerOutput, ManagerPlane};
use crate::manager_app::app_state::{
    AppState, CaseStatus, LedgerModel, PendingCompletion, WitnessKind, WitnessTask, WorkerLedgerEntry,
    federation_unchanged, pending_well_formed, texts,
};
use crate::manager_app::demo_domain::{
    document_proof, entry_task_cid, entry_worker_cid, execute_document_case, hot_cids, stage_name_from_worker,
    stage_of, TASK_INTAKE, WORKER_INTAKE,
};
use crate::session::{receipt_models, ProofPack};
use crate::storage::EpistemicHeat;
use crate::text::{decimal2, decimal2_text, join_texts, join_with, same_text};
use crate::transcript::{cid_texts, receipt_debug, ReceiptModel, StepReceipt};

verus! {

/// What one run of a case reports.
#[derive(Debug, Clone)]
pub struct CaseRunReport {
    pub case_id: CaseId,
    pub delegated_worker: Cid,
    pub delegated_task: Cid,
    pub had_yield: bool,
    pub witness_required: bool,
    pub proof_pack_cid: ProofPackCid,
}

/// The case operations of the application.
pub struct CaseService;

/// What a stage adds to the understanding of a case, by stage and action.
pub open spec fn insight_of(stage: Seq<char>, action: Seq<char>) -> Seq<char> {
    if stage == "intake"@ && action == "yield"@ {
        "atom de payload estava frio; runtime precisa heat-up para retomar"@
    } else if stage == "intake"@ && action == "complete"@ {
        "classificacao inicial concluida e trilha de evidencia aberta"@
    } else if stage == "extract"@ && action == "complete"@ {
        "campos chave extraidos e lacunas do documento explicitadas"@
    } else if stage == "validate"@ && action == "complete"@ {
        "regras obrigatorias avaliadas e bloqueio do caso determinado"@
    } else if stage == "decision-pack"@ && action == "complete"@ {
        "resultado consolidado para decisao final governada"@
    } else if action == "yield"@ {
        "worker pausou aguardando materializacao de evidencia"@
    } else {
        "worker concluiu etapa operacional"@
    }
}

fn stage_insight(stage: &str, action: &str) -> (s: &'static str)
    ensures
        s@ == insight_of(stage@, action@),
{
    let intake = same_text(stage, "intake");
    let yielded = same_text(action, "yield");
    let complete = same_text(action, "complete");
    if intake && yielded {
        "atom de payload estava frio; runtime precisa heat-up para retomar"
    } else if intake && complete {
        "classificacao inicial concluida e trilha de evidencia aberta"
    } else if same_text(stage, "extract") && complete {
        "campos chave extraidos e lacunas do documento explicitadas"
    } else if same_text(stage, "validate") && complete {
        "regras obrigatorias avaliadas e bloqueio do caso determinado"
    } else if same_text(stage, "decision-pack") && complete {
        "resultado consolidado para decisao final governada"
    } else if yielded {
        "worker pausou aguardando materializacao de evidencia"
    } else {
        "worker concluiu etapa operacional"
    }
}

/// The timeline line of the receipt at position `idx`.
pub open spec fn timeline_line(idx: nat, r: ReceiptModel) -> Seq<char> {
    match r {
        ReceiptModel::WorkerYielded { worker, task, missing, continuation } => {
            "#"@ + decimal2(idx) + " stage="@ + stage_of(worker) + " action=yield worker="@ + worker + " task="@
                + task + " missing=["@ + join_with(missing, ","@) + "] continuation="@ + continuation
                + " insight='"@ + insight_of(stage_of(worker), "yield"@) + "'"@
        },
        ReceiptModel::WorkerCompleted { worker, task, receipt } => {
            "#"@ + decimal2(idx) + " stage="@ + stage_of(worker) + " action=complete worker="@ + worker + " task="@
                + task + " receipt="@ + receipt + " insight='"@ + insight_of(stage_of(worker), "complete"@) + "'"@
        },
        _ => "#"@ + decimal2(idx) + " action=other receipt="@ + receipt_debug(r),
    }
}

/// The timeline of a list of receipts: one line per receipt, numbered from zero.
pub open spec fn timeline_of(rs: Seq<ReceiptModel>) -> Seq<Seq<char>> {
    Seq::new(rs.len(), |i: int| timeline_line(i as nat, rs[i]))
}

/// The ledger line of a receipt: one for a yield or a completion, none for the others.
pub open spec fn ledger_line(r: ReceiptModel) -> Option<LedgerModel> {
    match r {
        ReceiptModel::WorkerYielded { worker, task, missing, continuation } => Some(LedgerModel {
            stage: stage_of(worker),
            action: "yield"@,
            worker,
            task,
            insight: insight_of(stage_of(worker), "yield"@),
            artifacts: seq![continuation] + missing,
        }),
        ReceiptModel::WorkerCompleted { worker, task, receipt } => Some(LedgerModel {
            stage: stage_of(worker),
            action: "complete"@,
            worker,
            task,
            insight: insight_of(stage_of(worker), "complete"@),
            artifacts: seq![receipt],
        }),
        _ => None,
    }
}

/// The worker ledger of a list of receipts, in order.
pub open spec fn ledger_of(rs: Seq<ReceiptModel>) -> Seq<LedgerModel>
    decreases rs.len(),
{
    if rs.len() == 0 {
        seq![]
    } else {
        match ledger_line(rs.last()) {
            Some(l) => ledger_of(rs.drop_last()).push(l),
            None => ledger_of(rs.drop_last()),
        }
    }
}

/// The views of a list of ledger entries.
pub open spec fn ledger_views(v: Seq<WorkerLedgerEntry>) -> Seq<LedgerModel> {
    v.map_values(|e: WorkerLedgerEntry| e@)
}

pub(crate) fn cid_text_list(cids: &Vec<Cid>) -> (out: Vec<String>)
    ensures
        texts(out@) == cid_texts(cids@),
{
    let mut out: Vec<String> = Vec::new();
    let mut i: usize = 0;
    while i < cids.len()
        invariant
            i <= cids@.len(),
            out@.len() == i,
            texts(out@) == cid_texts(cids@.take(i as int)),
        decreases cids@.len() - i,
    {
        let ghost before = out@;
        out.push(cids[i].to_text());
        proof {
            assert forall|j: int| 0 <= j < i + 1 implies texts(out@)[j] == cid_texts(cids@.take(i + 1))[j] by {
                if j < i {
                    assert(texts(before)[j] == cid_texts(cids@.take(i as int))[j]);
                }
            }
            assert(texts(out@) =~= cid_texts(cids@.take(i + 1)));
        }
        i += 1;
    }
    assert(cids@.take(cids@.len() as int) =~= cids@);
    out
}

fn yield_line(idx: usize, worker_cid: &Cid, task_cid: &Cid, missing_cids: &Vec<Cid>, continuation_cid: &Cid) -> (r: (String, WorkerLedgerEntry))
    ensures
        r.0@ == timeline_line(
            idx as nat,
            ReceiptModel::WorkerYielded {
                worker: worker_cid@,
                task: task_cid@,
                missing: cid_texts(missing_cids@),
                continuation: continuation_cid@,
            },
        ),
        ledger_line(
            ReceiptModel::WorkerYielded {
                worker: worker_cid@,
                task: task_cid@,
                missing: cid_texts(missing_cids@),
                continuation: continuation_cid@,
            },
        ) == Some(r.1@),
{
    let stage = stage_name_from_worker(worker_cid);
    let insight = stage_insight(stage, "yield");
    let missing = join_texts(&cid_text_list(missing_cids), ",");
    let line = "#".to_string().concat(decimal2_text(idx as u64).as_str()).concat(" stage=").concat(stage).concat(
        " action=yield worker=",
    ).concat(worker_cid.as_str()).concat(" task=").concat(task_cid.as_str()).concat(" missing=[").concat(
        missing.as_str(),
    ).concat("] continuation=").concat(continuation_cid.as_str()).concat(" insight='").concat(insight).concat("'");
    let mut artifacts: Vec<Cid> = Vec::new();
    artifacts.push(continuation_cid.clone());
    let mut i: usize = 0;
    while i < missing_cids.len()
        invariant
            i <= missing_cids@.len(),
            artifacts@.len() == i + 1,
            cid_texts(artifacts@) == seq![continuation_cid@] + cid_texts(missing_cids@.take(i as int)),
        decreases missing_cids@.len() - i,
    {
        let ghost before = artifacts@;
        artifacts.push(missing_cids[i].clone());
        proof {
            assert forall|j: int| 0 <= j < i + 2 implies cid_texts(artifacts@)[j] == (seq![continuation_cid@] + cid_texts(missing_cids@.take(i + 1)))[j] by {
                if j < i + 1 {
                    assert(cid_texts(before)[j] == (seq![continuation_cid@] + cid_texts(missing_cids@.take(i as int)))[j]);
                }
            }
            assert(cid_texts(artifacts@) =~= seq![continuation_cid@] + cid_texts(missing_cids@.take(i + 1)));
        }
        i += 1;
    }
    assert(missing_cids@.take(missing_cids@.len() as int) =~= missing_cids@);
    let entry = WorkerLedgerEntry {
        stage: stage.to_string(),
        action: "yield".to_string(),
        worker_cid: worker_cid.clone(),
        task_cid: task_cid.clone(),
        insight: insight.to_string(),
        artifact_cids: artifacts,
    };
    (line, entry)
}

fn complete_line(idx: usize, worker_cid: &Cid, task_cid: &Cid, receipt_cid: &crate::ids::ReceiptCid) -> (r: (String, WorkerLedgerEntry))
    ensures
        r.0@ == timeline_line(
            idx as nat,
            ReceiptModel::WorkerCompleted { worker: worker_cid@, task: task_cid@, receipt: receipt_cid@ },
        ),
        ledger_line(ReceiptModel::WorkerCompleted { worker: worker_cid@, task: task_cid@, receipt: receipt_cid@ })
            == Some(r.1@),
{
    let stage = stage_name_from_worker(worker_cid);
    let insight = stage_insight(stage, "complete");
    let line = "#".to_string().concat(decimal2_text(idx as u64).as_str()).concat(" stage=").concat(stage).concat(
        " action=complete worker=",
    ).concat(worker_cid.as_str()).concat(" task=").concat(task_cid.as_str()).concat(" receipt=").concat(
        receipt_cid.as_str(),
    ).concat(" insight='").concat(insight).concat("'");
    let mut artifacts: Vec<Cid> = Vec::new();
    artifacts.push(Cid::new(receipt_cid.as_str()));
    assert(cid_texts(artifacts@) =~= seq![receipt_cid@]);
    let entry = WorkerLedgerEntry {
        stage: stage.to_string(),
        action: "complete".to_string(),
        worker_cid: worker_cid.clone(),
        task_cid: task_cid.clone(),
        insight: insight.to_string(),
        artifact_cids: artifacts,
    };
    (line, entry)
}

/// The timeline (one line per receipt) and the worker ledger (one entry per yield or
/// completion) of a proof pack.
pub fn build_operational_projection(proof: &ProofPack) -> (r: (Vec<String>, Vec<WorkerLedgerEntry>))
    ensures
        texts(r.0@) == timeline_of(receipt_models(proof.transcript_receipts@)),
        ledger_views(r.1@) == ledger_of(receipt_models(proof.transcript_receipts@)),
{
    let ghost rs = receipt_models(proof.transcript_receipts@);
    let mut timeline: Vec<String> = Vec::new();
    let mut ledger: Vec<WorkerLedgerEntry> = Vec::new();
    let mut idx: usize = 0;
    while idx < proof.transcript_receipts.len()
        invariant
            rs == receipt_models(proof.transcript_receipts@),
            idx <= rs.len(),
            rs.len() == proof.transcript_receipts@.len(),
            timeline@.len() == idx,
            texts(timeline@) == timeline_of(rs.take(idx as int)),
            ledger_views(ledger@) == ledger_of(rs.take(idx as int)),
        decreases rs.len() - idx,
    {
        let ghost before_t = timeline@;
        let ghost before_l = ledger@;
        proof {
            assert(rs.take(idx + 1).drop_last() =~= rs.take(idx as int));
            assert(rs.take(idx + 1).last() == rs[idx as int]);
        }
        match &proof.transcript_receipts[idx] {
            StepReceipt::WorkerYielded { worker_cid, task_cid, missing_cids, continuation_cid } => {
                let (line, entry) = yield_line(idx, worker_cid, task_cid, missing_cids, continuation_cid);
                timeline.push(line);
                ledger.push(entry);
                proof {
                    assert(ledger_views(ledger@) =~= ledger_views(before_l).push(ledger@.last()@));
                }
            },
            StepReceipt::WorkerCompleted { worker_cid, task_cid, receipt_cid } => {
                let (line, entry) = complete_line(idx, worker_cid, task_cid, receipt_cid);
                timeline.push(line);
                ledger.push(entry);
                proof {
                    assert(ledger_views(ledger@) =~= ledger_views(before_l).push(ledger@.last()@));
                }
            },
            other => {
                let line = "#".to_string().concat(decimal2_text(idx as u64).as_str()).concat(
                    " action=other receipt=",
                ).concat(other.debug_text().as_str());
                timeline.push(line);
            },
        }
        proof {
            assert forall|j: int| 0 <= j < idx + 1 implies texts(timeline@)[j] == timeline_of(rs.take(idx + 1))[j] by {
                if j < idx {
                    assert(texts(before_t)[j] == timeline_of(rs.take(idx as int))[j]);
                }
            }
            assert(texts(timeline@) =~= timeline_of(rs.take(idx + 1)));
        }
        idx += 1;
    }
    proof {
        assert(rs.take(rs.len() as int) =~= rs);
    }
    (timeline, ledger)
}

/// The map a list of cid and heat pairs stands for: later pairs win.
pub open spec fn heat_map_of(pairs: Seq<(Cid, EpistemicHeat)>) -> Map<Seq<char>, EpistemicHeat>
    decreases pairs.len(),
{
    if pairs.len() == 0 {
        Map::empty()
    } else {
        heat_map_of(pairs.drop_last()).insert(pairs.last().0@, pairs.last().1)
    }
}

fn heat_map(pairs: &Vec<(Cid, EpistemicHeat)>) -> (m: KeyedMap<Cid, EpistemicHeat>)
    requires
        crate::keyed_map::distinct_keys(pairs@),
    ensures
        m@ == heat_map_of(pairs@),
        m.pairs() == pairs@,
{
    let mut m: KeyedMap<Cid, EpistemicHeat> = KeyedMap::new();
    let mut i: usize = 0;
    while i < pairs.len()
        invariant
            i <= pairs@.len(),
            crate::keyed_map::distinct_keys(pairs@),
            m@ == heat_map_of(pairs@.take(i as int)),
            m.pairs() == pairs@.take(i as int),
        decreases pairs@.len() - i,
    {
        proof {
            assert(pairs@.take(i + 1).drop_last() =~= pairs@.take(i as int));
            if crate::keyed_map::has_key(m.pairs(), pairs@[i as int].0@) {
                let j = choose|j: int| 0 <= j < m.pairs().len() && #[trigger] m.pairs()[j].0.key_view() == pairs@[i as int].0@;
                assert(pairs@[j].0.key_view() == pairs@[i as int].0.key_view());
            }
        }
        m.insert(pairs[i].0.clone(), pairs[i].1);
        proof {
            assert(m.pairs() =~= pairs@.take(i + 1));
        }
        i += 1;
    }
    proof {
        assert(pairs@.take(pairs@.len() as int) =~= pairs@);
    }
    m
}

/// The witness asking whether the document belongs to the case.
pub open spec fn confirm_witness(case_id: Seq<char>) -> Seq<char> {
    "cid:witness:confirm:"@ + case_id
}

/// The witness asked to fill in the missing field.
pub open spec fn field_fill_witness(case_id: Seq<char>) -> Seq<char> {
    "cid:witness:field-fill:"@ + case_id
}

/// The witness asked to approve the policy exception.
pub open spec fn approval_witness(case_id: Seq<char>) -> Seq<char> {
    "cid:witness:approval:"@ + case_id
}

/// The witnesses a document case waits for, in order.
pub open spec fn required_witnesses(case_id: Seq<char>) -> Seq<Seq<char>> {
    seq![confirm_witness(case_id), field_fill_witness(case_id), approval_witness(case_id)]
}

/// The three witness tasks of a document case: a confirmation, the missing field, an approval.
pub open spec fn document_witnesses(case_id: Seq<char>, tasks: Seq<WitnessTask>) -> bool {
    &&& tasks.len() == 3
    &&& tasks[0].witness_id@ == confirm_witness(case_id)
    &&& tasks[0].case_id@ == case_id
    &&& tasks[0].prompt_cid@ == "cid:witness:prompt:confirm:"@ + case_id
    &&& tasks[0].kind matches WitnessKind::BinaryConfirm { question, positive_label, negative_label }
        && question@ == "Documento pertence ao caso correto?"@ && positive_label@ == "Sim"@ && negative_label@ == "Nao"@
    &&& tasks[1].witness_id@ == field_fill_witness(case_id)
    &&& tasks[1].case_id@ == case_id
    &&& tasks[1].prompt_cid@ == "cid:witness:prompt:"@ + case_id
    &&& tasks[1].kind matches WitnessKind::FieldFill { field_name, prompt }
        && field_name@ == "owner_document_id"@ && prompt@ == "Informe numero do documento"@
    &&& tasks[2].witness_id@ == approval_witness(case_id)
    &&& tasks[2].case_id@ == case_id
    &&& tasks[2].prompt_cid@ == "cid:witness:prompt:approval:"@ + case_id
    &&& tasks[2].kind matches WitnessKind::ApproveReject { reason }
        && reason@ == "Autorizar excecao de politica para documento incompleto"@
}

/// The manager delegates the case to the intake worker: the case is known, has no head, and
/// the last input is the intake event.
pub open spec fn delegates_intake(s: AppState, case_id: Seq<char>) -> bool {
    &&& s.manager.cases@.contains_key(case_id)
    &&& s.manager.cases@[case_id].current_head_cid is None
    &&& s.manager.inbox@.len() > 0
    &&& s.manager.inbox@.last() matches ManagerInput::Event(task) && task@ == TASK_INTAKE@
}

/// A run of the case is recorded: its proof, heat, timeline and ledger; the document names an
/// owner, so three witness tasks and a pending completion wait, and the case is blocked on them.
pub open spec fn run_recorded(old: AppState, new: AppState, case_id: Seq<char>, rep: CaseRunReport) -> bool {
    let p = new.proofs@[case_id];
    let hot = new.hot_atoms_by_case@[case_id];
    let heat = new.case_atom_heat@[case_id];
    let n = old.witness_inbox@.len();
    let pc = new.pending_completions@[case_id];
    &&& new.proofs@ == old.proofs@.insert(case_id, p)
    &&& document_proof(case_id, p)
    &&& p.final_receipt_cid is Some
    &&& rep.case_id@ == case_id
    &&& rep.delegated_worker@ == WORKER_INTAKE@
    &&& rep.delegated_task@ == TASK_INTAKE@
    &&& rep.had_yield == (p.continuation_cids_used@.len() > 0)
    &&& rep.witness_required
    &&& rep.proof_pack_cid == p.proof_pack_cid
    &&& new.hot_atoms_by_case@ == old.hot_atoms_by_case@.insert(case_id, hot)
    &&& new.case_atom_heat@ == old.case_atom_heat@.insert(case_id, heat)
    &&& cid_texts(hot@) == hot_cids(heat.pairs())
    &&& new.case_timeline@.contains_key(case_id)
    &&& new.case_timeline@ == old.case_timeline@.insert(case_id, new.case_timeline@[case_id])
    &&& texts(new.case_timeline@[case_id]@) == timeline_of(receipt_models(p.transcript_receipts@))
    &&& new.worker_ledger_by_case@.contains_key(case_id)
    &&& new.worker_ledger_by_case@ == old.worker_ledger_by_case@.insert(case_id, new.worker_ledger_by_case@[case_id])
    &&& ledger_views(new.worker_ledger_by_case@[case_id]@) == ledger_of(receipt_models(p.transcript_receipts@))
    &&& new.witness_inbox@.len() == n + 3
    &&& new.witness_inbox@.take(n as int) == old.witness_inbox@
    &&& document_witnesses(case_id, new.witness_inbox@.skip(n as int))
    &&& new.pending_completions@ == old.pending_completions@.insert(case_id, pc)
    &&& Some(pc.receipt_cid) == p.final_receipt_cid
    &&& pc.proof_pack_cid == p.proof_pack_cid
    &&& cid_texts(pc.required_witness_ids@) == required_witnesses(case_id)
    &&& pc.resolved_witness_ids@.len() == 0
    &&& pending_well_formed(pc)
    &&& new.statuses@ == old.statuses@.insert(case_id, CaseStatus::BlockedOnWitness)
    &&& new.manager.cases@ == old.manager.cases@
    &&& new.manager.inbox@ == old.manager.inbox@
}

proof fn lemma_required_witnesses_distinct(case_id: Seq<char>)
    ensures
        required_witnesses(case_id).no_duplicates(),
{
    reveal_strlit("cid:witness:confirm:");
    reveal_strlit("cid:witness:field-fill:");
    reveal_strlit("cid:witness:approval:");
    let w = required_witnesses(case_id);
    assert(w[0][12] == 'c');
    assert(w[1][12] == 'f');
    assert(w[2][12] == 'a');
}

fn witness_cid(prefix: &str, case_id: &str) -> (c: Cid)
    ensures
        c@ == prefix@ + case_id@,
{
    Cid::from_string(prefix.to_string().concat(case_id))
}

impl CaseService {
    /// Hands the intake event of a case to the manager and marks the case running.
    pub fn enqueue_document_event(state: &mut AppState, case_id: &str, task_cid: Cid) -> (r: Result<(), String>)
        ensures
            r is Ok,
            final(state).manager.inbox@ == old(state).manager.inbox@.push(ManagerInput::Event(task_cid)),
            final(state).manager.cases@ == old(state).manager.cases@,
            final(state).statuses@ == old(state).statuses@.insert(case_id@, CaseStatus::Running),
            crate::manager_app::app_state::runs_unchanged(*old(state), *final(state)),
            crate::manager_app::app_state::witnesses_unchanged(*old(state), *final(state)),
            federation_unchanged(*old(state), *final(state)),
    {
        match state.manager.ingest(ManagerInput::Event(task_cid)) {
            Ok(()) => {},
            Err(e) => {
                return Err("ingest event failed: ".to_string().concat(e.as_str()));
            },
        }
        state.statuses.insert(case_id.to_string(), CaseStatus::Running);
        Ok(())
    }

    /// Runs a case once: the manager must delegate it to the intake worker; the document
    /// stages run, their proof, heat, timeline and ledger are recorded, and the completion
    /// either waits for three witnesses or goes to the manager.
    pub fn run_case_once(state: &mut AppState, case_id: &str) -> (r: Result<CaseRunReport, String>)
        ensures
            !delegates_intake(*old(state), case_id@) ==> r is Err,
            !delegates_intake(*old(state), case_id@) ==> ({
                &&& final(state).statuses@ == old(state).statuses@
                &&& crate::manager_app::app_state::runs_unchanged(*old(state), *final(state))
                &&& crate::manager_app::app_state::witnesses_unchanged(*old(state), *final(state))
                &&& federation_unchanged(*old(state), *final(state))
                &&& final(state).manager.inbox@ == old(state).manager.inbox@
            }),
            !old(state).manager.cases@.contains_key(case_id@) ==> (r matches Err(e)
                && e@ == "manager evaluate failed: "@ + "unknown case"@) && final(state).manager.cases@
                == old(state).manager.cases@,
            r matches Ok(rep) ==> delegates_intake(*old(state), case_id@) && run_recorded(*old(state), *final(state), case_id@, rep),
            delegates_intake(*old(state), case_id@) && r is Err ==> (r matches Err(e)
                && e@ == "proof missing final receipt cid"@),
            federation_unchanged(*old(state), *final(state)),
    {
        let decision = match state.manager.evaluate_next(case_id) {
            Ok(d) => d,
            Err(e) => {
                return Err("manager evaluate failed: ".to_string().concat(e.as_str()));
            },
        };
        let (worker_cid, task_cid) = match decision {
            ManagerOutput::Delegate { worker_cid, task_cid } => (worker_cid, task_cid),
            other => {
                return Err("expected delegate, got ".to_string().concat(other.debug_text().as_str()));
            },
        };
        let expected_worker = entry_worker_cid();
        let expected_task = entry_task_cid();
        if !worker_cid.same(&expected_worker) || !task_cid.same(&expected_task) {
            return Err("unexpected delegate route worker=".to_string().concat(worker_cid.as_str()).concat(" task=").concat(
                task_cid.as_str(),
            ));
        }
        let case_id_t = CaseId::new(case_id);
        let execution = match execute_document_case(&case_id_t) {
            Ok(ex) => ex,
            Err(e) => {
                return Err(e);
            },
        };
        let proof = execution.proof;
        let needed_witness = execution.needed_witness;
        let missing_field_prompt = execution.missing_field_prompt;
        let missing_field_name = execution.missing_field_name;
        let had_yield = execution.had_yield;
        let (timeline, ledger) = build_operational_projection(&proof);
        let heat = heat_map(&execution.atom_heat_after_run);
        state.hot_atoms_by_case.insert(case_id.to_string(), execution.hot_atoms_after_run);
        state.case_atom_heat.insert(case_id.to_string(), heat);
        let proof_pack_cid = proof.proof_pack_cid.clone();
        let final_receipt = match &proof.final_receipt_cid {
            Some(c) => c.clone(),
            None => {
                return Err("proof missing final receipt cid".to_string());
            },
        };
        let ghost p = proof;
        state.proofs.insert(case_id.to_string(), proof);
        state.case_timeline.insert(case_id.to_string(), timeline);
        state.worker_ledger_by_case.insert(case_id.to_string(), ledger);
        if needed_witness {
            let witness_confirm = WitnessTask {
                witness_id: witness_cid("cid:witness:confirm:", case_id),
                case_id: case_id_t.clone(),
                prompt_cid: witness_cid("cid:witness:prompt:confirm:", case_id),
                kind: WitnessKind::BinaryConfirm {
                    question: "Documento pertence ao caso correto?".to_string(),
                    positive_label: "Sim".to_string(),
                    negative_label: "Nao".to_string(),
                },
            };
            let witness_field_fill = WitnessTask {
                witness_id: witness_cid("cid:witness:field-fill:", case_id),
                case_id: case_id_t.clone(),
                prompt_cid: missing_field_prompt,
                kind: WitnessKind::FieldFill {
                    field_name: missing_field_name,
                    prompt: "Informe numero do documento".to_string(),
                },
            };
            let witness_approval = WitnessTask {
                witness_id: witness_cid("cid:witness:approval:", case_id),
                case_id: case_id_t.clone(),
                prompt_cid: witness_cid("cid:witness:prompt:approval:", case_id),
                kind: WitnessKind::ApproveReject {
                    reason: "Autorizar excecao de politica para documento incompleto".to_string(),
                },
            };
            let mut required_witness_ids: Vec<Cid> = Vec::new();
            required_witness_ids.push(witness_confirm.witness_id.clone());
            required_witness_ids.push(witness_field_fill.witness_id.clone());
            required_witness_ids.push(witness_approval.witness_id.clone());
            let ghost inbox0 = state.witness_inbox@;
            state.witness_inbox.push(witness_confirm);
            state.witness_inbox.push(witness_field_fill);
            state.witness_inbox.push(witness_approval);
            proof {
                assert(state.witness_inbox@.take(inbox0.len() as int) =~= inbox0);
                assert(cid_texts(required_witness_ids@) =~= required_witnesses(case_id@));
                lemma_required_witnesses_distinct(case_id@);
            }
            state.pending_completions.insert(
                case_id.to_string(),
                PendingCompletion {
                    receipt_cid: final_receipt,
                    proof_pack_cid: proof_pack_cid.clone(),
                    required_witness_ids,
                    resolved_witness_ids: Vec::new(),
                },
            );
            state.statuses.insert(case_id.to_string(), CaseStatus::BlockedOnWitness);
        } else {
            let ghost inbox0 = state.manager.inbox@;
            match state.manager.ingest(
                ManagerInput::WorkerCompleted { receipt_cid: final_receipt, proof_pack_cid: proof_pack_cid.clone() },
            ) {
                Ok(()) => {},
                Err(e) => {
                    return Err("ingest completion failed: ".to_string().concat(e.as_str()));
                },
            }
            assert(state.manager.inbox@.drop_last() =~= inbox0);
            state.statuses.insert(case_id.to_string(), CaseStatus::Committed);
        }
        Ok(CaseRunReport {
            case_id: case_id_t,
            delegated_worker: worker_cid,
            delegated_task: task_cid,
            had_yield,
            witness_required: needed_witness,
            proof_pack_cid,
        })
    }
}

} // verus!
