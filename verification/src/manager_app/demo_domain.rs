//! The document domain: four staged workers under one contract.

use vstd::prelude::*;

use crate::ids::{CaseId, Cid, ReceiptCid, Signature};
use crate::keyed_map::{KeyedMap, MapKey};
use crate::runtime::{Contract, DeterminismProfile, ExecutionTarget, SovereignRuntime, outcome_explained, run, run_effect};
use crate::session::{certifies, count_completed, receipts_of, ProofPack, Session, SessionView};
use crate::storage::{AtomBody, AtomHeader, AtomKind, AtomSpace, EpistemicHeat, InMemoryAtomSpace, UniversalAtom};
use crate::text::{canonical_hash, contains_bytes, hash_three, occurs_in};
use crate::transcript::{cid_texts, ComputeAction, ProofMode, StepAction, StepDecision};
use crate::worker::{WorkerAbi, WorkerError, WorkerHostEnv, WorkerResult, WorkerYield};

verus! {

pub const WORKER_INTAKE: &'static str = "worker:document-intake:v7";
pub const WORKER_EXTRACT: &'static str = "worker:document-extract:v7";
pub const WORKER_VALIDATE: &'static str = "worker:document-validate:v7";
pub const WORKER_DECISION_PACK: &'static str = "worker:decision-pack:v7";

pub const TASK_INTAKE: &'static str = "cid:task:doc-intake:001";
pub const TASK_EXTRACT: &'static str = "cid:task:doc-extract:001";
pub const TASK_VALIDATE: &'static str = "cid:task:doc-validate:001";
pub const TASK_DECISION_PACK: &'static str = "cid:task:decision-pack:001";

/// The worker a document case starts with.
pub fn entry_worker_cid() -> (c: Cid)
    ensures
        c@ == WORKER_INTAKE@,
{
    Cid::new(WORKER_INTAKE)
}

/// The task a document case starts with.
pub fn entry_task_cid() -> (c: Cid)
    ensures
        c@ == TASK_INTAKE@,
{
    Cid::new(TASK_INTAKE)
}

/// The stage a worker runs.
pub open spec fn stage_of(worker: Seq<char>) -> Seq<char> {
    if worker == WORKER_INTAKE@ {
        "intake"@
    } else if worker == WORKER_EXTRACT@ {
        "extract"@
    } else if worker == WORKER_VALIDATE@ {
        "validate"@
    } else if worker == WORKER_DECISION_PACK@ {
        "decision-pack"@
    } else {
        "unknown-stage"@
    }
}

/// The stage a worker runs.
pub fn stage_name_from_worker(worker_cid: &Cid) -> (s: &'static str)
    ensures
        s@ == stage_of(worker_cid@),
{
    let w = worker_cid.as_str();
    if crate::text::same_text(w, WORKER_INTAKE) {
        "intake"
    } else if crate::text::same_text(w, WORKER_EXTRACT) {
        "extract"
    } else if crate::text::same_text(w, WORKER_VALIDATE) {
        "validate"
    } else if crate::text::same_text(w, WORKER_DECISION_PACK) {
        "decision-pack"
    } else {
        "unknown-stage"
    }
}

/// What running a document case produced.
#[derive(Debug)]
pub struct DomainExecution {
    pub proof: ProofPack,
    pub needed_witness: bool,
    pub missing_field_name: String,
    pub missing_field_prompt: Cid,
    pub had_yield: bool,
    pub hot_atoms_after_run: Vec<Cid>,
    pub atom_heat_after_run: Vec<(Cid, EpistemicHeat)>,
}

/// The contract of a document case: run the stages in order, one per completion, then commit.
#[derive(Debug)]
pub struct DocumentContract {
    pub stages: Vec<(Cid, Cid)>,
}

impl DocumentContract {
    /// The four stages: intake, extract, validate, decision pack.
    pub fn new() -> (c: Self)
        ensures
            c.stages@.len() == 4,
            c.stages@[0].0@ == WORKER_INTAKE@ && c.stages@[0].1@ == TASK_INTAKE@,
            c.stages@[1].0@ == WORKER_EXTRACT@ && c.stages@[1].1@ == TASK_EXTRACT@,
            c.stages@[2].0@ == WORKER_VALIDATE@ && c.stages@[2].1@ == TASK_VALIDATE@,
            c.stages@[3].0@ == WORKER_DECISION_PACK@ && c.stages@[3].1@ == TASK_DECISION_PACK@,
    {
        let mut stages: Vec<(Cid, Cid)> = Vec::new();
        stages.push((Cid::new(WORKER_INTAKE), Cid::new(TASK_INTAKE)));
        stages.push((Cid::new(WORKER_EXTRACT), Cid::new(TASK_EXTRACT)));
        stages.push((Cid::new(WORKER_VALIDATE), Cid::new(TASK_VALIDATE)));
        stages.push((Cid::new(WORKER_DECISION_PACK), Cid::new(TASK_DECISION_PACK)));
        DocumentContract { stages }
    }
}

impl Contract for DocumentContract {
    open spec fn decide(&self, view: SessionView) -> StepDecision {
        if view.worker_completed_count < self.stages@.len() {
            let stage = self.stages@[view.worker_completed_count as int];
            StepDecision::Continue(StepAction::Compute(ComputeAction::RunWorker { worker_cid: stage.0, task_cid: stage.1 }))
        } else {
            StepDecision::Commit
        }
    }

    open spec fn price(&self, action: StepAction, view: SessionView) -> u64 {
        3
    }

    /// The stage after the completed ones, or a commit once all stages completed.
    fn eval_step(&self, session: &SessionView) -> (d: StepDecision) {
        let stage_index = session.worker_completed_count;
        if stage_index < self.stages.len() {
            let stage = &self.stages[stage_index];
            StepDecision::Continue(StepAction::Compute(ComputeAction::RunWorker {
                worker_cid: stage.0.clone(),
                task_cid: stage.1.clone(),
            }))
        } else {
            StepDecision::Commit
        }
    }

    /// Every step costs three.
    fn cost_of(&self, action: &StepAction, session: &SessionView) -> (c: u64) {
        3
    }

    /// A wasm contract that uses no user input, time oracle or external fetch.
    fn determinism_profile(&self) -> (p: DeterminismProfile)
        ensures
            p == (DeterminismProfile {
                fixed_point_only: false,
                allow_user_input: false,
                allow_time_oracle: false,
                allow_external_fetch: false,
                execution_target: ExecutionTarget::Wasm { abi_version: 1 },
            }),
    {
        DeterminismProfile {
            fixed_point_only: false,
            allow_user_input: false,
            allow_time_oracle: false,
            allow_external_fetch: false,
            execution_target: ExecutionTarget::Wasm { abi_version: 1 },
        }
    }
}

/// The UTF-8 decoding of bytes, with each invalid sequence replaced by U+FFFD.
pub uninterp spec fn utf8_lossy(bytes: Seq<u8>) -> Seq<char>;

/// Calls `String::from_utf8_lossy` and takes the text out. Claimed: the text is the named
/// lossy decoding of the bytes, which for valid UTF-8 is its decoding.
#[verifier::external_body]
pub(crate) fn lossy_text(bytes: &[u8]) -> (s: String)
    ensures
        s@ == utf8_lossy(bytes@),
        vstd::utf8::valid_utf8(bytes@) ==> s@ == vstd::utf8::decode_utf8(bytes@),
{
    String::from_utf8_lossy(bytes).into_owned()
}

/// A worker that runs one stage of a document case on one required atom.
#[derive(Debug)]
pub struct StageWorker {
    pub stage_name: &'static str,
    pub stage_worker_cid: Cid,
    pub stage_task_cid: Cid,
    pub required_atom_cid: Cid,
    pub allow_yield: bool,
    pub pending_continuation: Option<Cid>,
}

/// The continuation of a stage worker: its stage and the hash of task, atom and worker.
pub open spec fn continuation_text(w: StageWorker) -> Seq<char> {
    "cid:continuation:"@ + w.stage_name@ + ":"@ + canonical_hash(
        seq![w.stage_task_cid@, w.required_atom_cid@, w.stage_worker_cid@],
    )
}

/// The receipt of a stage worker over document bytes: its stage and the hash of task, text and worker.
pub open spec fn stage_receipt_text(w: StageWorker, doc: Seq<u8>) -> Seq<char> {
    "cid:receipt:"@ + w.stage_name@ + ":"@ + canonical_hash(
        seq![w.stage_task_cid@, utf8_lossy(doc), w.stage_worker_cid@],
    )
}

impl StageWorker {
    /// A stage worker with nothing pending.
    pub fn new(
        stage_name: &'static str,
        stage_worker_cid: Cid,
        stage_task_cid: Cid,
        required_atom_cid: Cid,
        allow_yield: bool,
    ) -> (w: Self)
        ensures
            w.stage_name == stage_name,
            w.stage_worker_cid == stage_worker_cid,
            w.stage_task_cid == stage_task_cid,
            w.required_atom_cid == required_atom_cid,
            w.allow_yield == allow_yield,
            w.pending_continuation is None,
    {
        StageWorker { stage_name, stage_worker_cid, stage_task_cid, required_atom_cid, allow_yield, pending_continuation: None }
    }

    /// The continuation this worker yields with.
    pub fn continuation(&self) -> (c: Cid)
        ensures
            c@ == continuation_text(*self),
    {
        let h = hash_three(self.stage_task_cid.as_str(), self.required_atom_cid.as_str(), self.stage_worker_cid.as_str());
        let text = "cid:continuation:".to_string().concat(self.stage_name).concat(":").concat(h.as_str());
        Cid::from_string(text)
    }

    /// The receipt of this worker over the document bytes.
    pub fn build_receipt(&self, doc_bytes: &[u8]) -> (r: ReceiptCid)
        ensures
            r@ == stage_receipt_text(*self, doc_bytes@),
    {
        let doc = lossy_text(doc_bytes);
        let h = hash_three(self.stage_task_cid.as_str(), doc.as_str(), self.stage_worker_cid.as_str());
        let text = "cid:receipt:".to_string().concat(self.stage_name).concat(":").concat(h.as_str());
        ReceiptCid::from_string(text)
    }
}

impl WorkerAbi for StageWorker {
    /// Spends two gas and reads the required atom: a receipt if it is available, else a yield
    /// (when allowed) naming the atom and the continuation.
    fn execute<E: WorkerHostEnv>(&mut self, task_cid: &Cid, env: &mut E) -> (r: WorkerResult)
        ensures
            old(env).gas() < 2 ==> r == WorkerResult::Fail(WorkerError::InternalFailure) && *final(self) == *old(self),
            old(env).gas() >= 2 ==> match old(env).readable(old(self).required_atom_cid@) {
                Some(b) => (r matches WorkerResult::Complete(c) && c@ == stage_receipt_text(*old(self), b))
                    && *final(self) == *old(self),
                None => if old(self).allow_yield {
                    &&& r matches WorkerResult::Yield(y)
                    &&& cid_texts(y.missing_cids@) == seq![old(self).required_atom_cid@]
                    &&& y.continuation_cid@ == continuation_text(*old(self))
                    &&& *final(self) == (StageWorker { pending_continuation: Some(y.continuation_cid), ..*old(self) })
                } else {
                    r == WorkerResult::Fail(WorkerError::InternalFailure) && *final(self) == *old(self)
                },
            },
    {
        if env.consume_gas(2).is_err() {
            return WorkerResult::Fail(WorkerError::InternalFailure);
        }
        match env.request_atom(&self.required_atom_cid) {
            Ok(bytes) => WorkerResult::Complete(self.build_receipt(bytes.as_slice())),
            Err(_) => {
                if self.allow_yield {
                    let continuation = self.continuation();
                    self.pending_continuation = Some(continuation.clone());
                    let mut missing: Vec<Cid> = Vec::new();
                    missing.push(self.required_atom_cid.clone());
                    assert(cid_texts(missing@) =~= seq![old(self).required_atom_cid@]);
                    WorkerResult::Yield(WorkerYield { missing_cids: missing, continuation_cid: continuation })
                } else {
                    WorkerResult::Fail(WorkerError::InternalFailure)
                }
            },
        }
    }

    /// Spends one gas; resumes only the pending continuation, and completes once the atom is
    /// available.
    fn resume<E: WorkerHostEnv>(&mut self, continuation_cid: &Cid, env: &mut E) -> (r: WorkerResult)
        ensures
            old(env).gas() < 1 ==> r == WorkerResult::Fail(WorkerError::InternalFailure) && *final(self) == *old(self),
            old(env).gas() >= 1 && !(old(self).pending_continuation matches Some(p) && p@ == continuation_cid@) ==> r
                == WorkerResult::Fail(WorkerError::InvalidTask) && *final(self) == *old(self),
            old(env).gas() >= 1 && (old(self).pending_continuation matches Some(p) && p@ == continuation_cid@) ==> match old(
                env,
            ).readable(old(self).required_atom_cid@) {
                Some(b) => (r matches WorkerResult::Complete(c) && c@ == stage_receipt_text(*old(self), b))
                    && *final(self) == (StageWorker { pending_continuation: None, ..*old(self) }),
                None => r == WorkerResult::Fail(WorkerError::InternalFailure) && *final(self) == *old(self),
            },
    {
        if env.consume_gas(1).is_err() {
            return WorkerResult::Fail(WorkerError::InternalFailure);
        }
        let pending_matches = match &self.pending_continuation {
            Some(p) => p.same(continuation_cid),
            None => false,
        };
        if !pending_matches {
            return WorkerResult::Fail(WorkerError::InvalidTask);
        }
        match env.request_atom(&self.required_atom_cid) {
            Ok(bytes) => {
                let receipt = self.build_receipt(bytes.as_slice());
                self.pending_continuation = None;
                WorkerResult::Complete(receipt)
            },
            Err(_) => WorkerResult::Fail(WorkerError::InternalFailure),
        }
    }
}

/// The hot cids among cid and heat pairs, in order.
pub open spec fn hot_cids(pairs: Seq<(Cid, EpistemicHeat)>) -> Seq<Seq<char>>
    decreases pairs.len(),
{
    if pairs.len() == 0 {
        seq![]
    } else {
        let before = hot_cids(pairs.drop_last());
        if pairs.last().1 == EpistemicHeat::Hot {
            before.push(pairs.last().0@)
        } else {
            before
        }
    }
}

/// The cids at heat `Hot` among the pairs, in order.
pub fn hot_among(pairs: &Vec<(Cid, EpistemicHeat)>) -> (hot: Vec<Cid>)
    ensures
        cid_texts(hot@) == hot_cids(pairs@),
{
    let mut hot: Vec<Cid> = Vec::new();
    let mut i: usize = 0;
    while i < pairs.len()
        invariant
            i <= pairs@.len(),
            cid_texts(hot@) == hot_cids(pairs@.take(i as int)),
        decreases pairs@.len() - i,
    {
        proof {
            assert(pairs@.take(i + 1).drop_last() =~= pairs@.take(i as int));
        }
        if pairs[i].1 == EpistemicHeat::Hot {
            hot.push(pairs[i].0.clone());
        }
        proof {
            assert(cid_texts(hot@) =~= hot_cids(pairs@.take(i + 1)));
        }
        i += 1;
    }
    assert(pairs@.take(pairs@.len() as int) =~= pairs@);
    hot
}

/// The heat pairs of a heat map, in its order.
pub fn heat_pairs(heats: &KeyedMap<Cid, EpistemicHeat>) -> (pairs: Vec<(Cid, EpistemicHeat)>)
    ensures
        pairs@ == heats.pairs(),
        crate::keyed_map::distinct_keys(pairs@),
{
    let n = heats.len();
    let mut out: Vec<(Cid, EpistemicHeat)> = Vec::new();
    let mut i: usize = 0;
    while i < n
        invariant
            n == heats.pairs().len(),
            i <= n,
            out@ == heats.pairs().take(i as int),
        decreases n - i,
    {
        let (k, v) = heats.entry_at(i);
        out.push((k.clone(), *v));
        proof {
            assert(heats.pairs().take(i + 1) =~= heats.pairs().take(i as int).push(heats.pairs()[i as int]));
        }
        i += 1;
    }
    assert(heats.pairs().take(n as int) =~= heats.pairs());
    out
}

/// The proof of a document case run: the case and the document contract, a budget of 64, the
/// cid of case, contract and head, and a commit only after the four stages completed.
pub open spec fn document_proof(case_id: Seq<char>, p: ProofPack) -> bool {
    &&& p.case_id@ == case_id
    &&& p.contract_hash@ == "contract:document-intake:v7"@
    &&& p.initial_budget == 64
    &&& p.proof_pack_cid@ == canonical_hash(seq![case_id, "contract:document-intake:v7"@, p.transcript_head@])
    &&& p.final_outcome is Commit ==> count_completed(crate::session::receipt_models(p.transcript_receipts@)) >= 4
}

proof fn lemma_count_completed_bound(rs: Seq<crate::transcript::ReceiptModel>)
    ensures
        count_completed(rs) <= rs.len(),
    decreases rs.len(),
{
    if rs.len() > 0 {
        lemma_count_completed_bound(rs.drop_last());
    }
}

/// The intake payload names an owner: `owner=` occurs in its bytes.
pub proof fn lemma_payload_names_owner()
    ensures
        occurs_in(vstd::utf8::encode_utf8("doc_type=invoice;owner="@), vstd::utf8::encode_utf8("owner="@)),
{
    reveal_strlit("doc_type=invoice;owner=");
    reveal_strlit("owner=");
    let hay = "doc_type=invoice;owner="@;
    let needle = "owner="@;
    assert(vstd::utf8::is_ascii_chars(hay));
    assert(vstd::utf8::is_ascii_chars(needle));
    vstd::utf8::is_ascii_chars_encode_utf8(hay);
    vstd::utf8::is_ascii_chars_encode_utf8(needle);
    let hb = vstd::utf8::encode_utf8(hay);
    let nb = vstd::utf8::encode_utf8(needle);
    assert forall|i: int| 0 <= i < 6 implies hb.subrange(17, 23)[i] == nb[i] by {
        assert(hb[17 + i] == hay[17 + i] as u8);
        assert(nb[i] == needle[i] as u8);
    }
    assert(hb.subrange(17, 23) =~= nb);
    assert(crate::text::occurs_at(hb, nb, 17));
}

/// Runs a document case from scratch: the intake payload is stored cold, four stage workers
/// run under the document contract (the first may yield until the payload is heated), and
/// the heat of every atom afterwards is reported.
pub fn execute_document_case(case_id: &CaseId) -> (r: Result<DomainExecution, String>)
    ensures
        r is Ok,
        r matches Ok(ex) && ({
            &&& document_proof(case_id@, ex.proof)
            &&& ex.had_yield == (ex.proof.continuation_cids_used@.len() > 0)
            &&& ex.needed_witness
            &&& ex.missing_field_name@ == "owner_document_id"@
            &&& ex.missing_field_prompt@ == "cid:witness:prompt:"@ + case_id@
            &&& cid_texts(ex.hot_atoms_after_run@) == hot_cids(ex.atom_heat_after_run@)
            &&& crate::keyed_map::distinct_keys(ex.atom_heat_after_run@)
        }),
{
    let required_atom_cid = Cid::new("cid:doc:intake:payload");
    let payload_text = "doc_type=invoice;owner=";
    let document_payload = payload_text.as_bytes_vec();
    let mut atom_space = InMemoryAtomSpace::new();
    let atom = UniversalAtom {
        header: AtomHeader {
            kind: AtomKind::Task,
            size_bytes: document_payload.len() as u64,
            producer_hash: crate::ids::Hash::new("producer:document-intake"),
            signature: Some(Signature::new("sig:document-intake")),
        },
        links: Vec::new(),
        body: AtomBody::Inline(crate::text::copy_bytes(&document_payload)),
    };
    let _ = atom_space.materialize(required_atom_cid.clone(), atom);
    let contract_hash = crate::ids::Hash::new("contract:document-intake:v7");
    let mut session = Session {
        case_id: case_id.clone(),
        contract_hash,
        initial_budget: 64,
        budget_remaining: 64,
        state_root: Cid::new("cid:state:document-intake"),
        proof_mode: ProofMode::AnchoredImmutableRefs,
        transcript: Vec::new(),
        final_receipt_cid: None,
        final_proof_pack_cid: None,
        last_worker_cid: None,
        last_task_cid: None,
        continuation_cids_used: Vec::new(),
        manager_receipt_cids: Vec::new(),
    };
    let ghost s0 = session;
    let contract = DocumentContract::new();
    let proof = {
        let mut runtime: SovereignRuntime<InMemoryAtomSpace, StageWorker> = SovereignRuntime::new(&mut atom_space);
        runtime.register_worker(
            Cid::new(WORKER_INTAKE),
            StageWorker::new("intake", Cid::new(WORKER_INTAKE), Cid::new(TASK_INTAKE), required_atom_cid.clone(), true),
        );
        runtime.register_worker(
            Cid::new(WORKER_EXTRACT),
            StageWorker::new("extract", Cid::new(WORKER_EXTRACT), Cid::new(TASK_EXTRACT), required_atom_cid.clone(), false),
        );
        runtime.register_worker(
            Cid::new(WORKER_VALIDATE),
            StageWorker::new("validate", Cid::new(WORKER_VALIDATE), Cid::new(TASK_VALIDATE), required_atom_cid.clone(), false),
        );
        runtime.register_worker(
            Cid::new(WORKER_DECISION_PACK),
            StageWorker::new(
                "decision-pack",
                Cid::new(WORKER_DECISION_PACK),
                Cid::new(TASK_DECISION_PACK),
                required_atom_cid,
                false,
            ),
        );
        run(&mut session, &contract, &mut runtime)
    };
    proof {
        reveal_strlit("contract:document-intake:v7");
        assert(certifies(proof, session, proof.final_outcome));
        assert(outcome_explained(&contract, session, proof.final_outcome));
        lemma_count_completed_bound(receipts_of(session.transcript@));
        assert(crate::session::receipt_models(proof.transcript_receipts@) == receipts_of(session.transcript@));
    }
    let had_yield = proof.continuation_cids_used.len() > 0;
    let owner = "owner=".as_bytes_vec();
    let needed_witness = contains_bytes(document_payload.as_slice(), owner.as_slice());
    proof {
        lemma_payload_names_owner();
    }
    let atom_heat_after_run = heat_pairs(&atom_space.heats);
    let hot_atoms_after_run = hot_among(&atom_heat_after_run);
    let prompt = "cid:witness:prompt:".to_string().concat(case_id.as_str());
    Ok(DomainExecution {
        proof,
        needed_witness,
        missing_field_name: "owner_document_id".to_string(),
        missing_field_prompt: Cid::from_string(prompt),
        had_yield,
        hot_atoms_after_run,
        atom_heat_after_run,
    })
}

} // verus!
