//! A session: the budget, the state root and the hash-chained transcript of one case.

use vstd::prelude::*;

use crate::ids::{CaseId, Cid, ProofPackCid, ReceiptCid};
use crate::text::{canonical_hash, hash_three, hash_two, hash_one};
use crate::transcript::{FinalOutcome, ProofMode, ReceiptModel, StepReceipt, receipt_text};

verus! {

/// One entry of the transcript: the receipt, the hash link, and the step it belongs to.
#[derive(Debug)]
pub struct TranscriptEntry {
    pub receipt: StepReceipt,
    pub prev_hash: Option<crate::ids::Hash>,
    pub entry_hash: crate::ids::Hash,
    pub action_canonical: String,
    pub budget_before: u64,
    pub budget_after: u64,
    pub state_root_before: Cid,
    pub state_root_after: Cid,
}

/// The state of one case under a contract.
#[derive(Debug)]
pub struct Session {
    pub case_id: CaseId,
    pub contract_hash: crate::ids::Hash,
    pub initial_budget: u64,
    pub budget_remaining: u64,
    pub state_root: Cid,
    pub proof_mode: ProofMode,
    pub transcript: Vec<TranscriptEntry>,
    pub final_receipt_cid: Option<ReceiptCid>,
    pub final_proof_pack_cid: Option<ProofPackCid>,
    pub last_worker_cid: Option<Cid>,
    pub last_task_cid: Option<Cid>,
    pub continuation_cids_used: Vec<Cid>,
    pub manager_receipt_cids: Vec<ReceiptCid>,
}

/// The text of an optional hash.
pub open spec fn hash_text(h: Option<crate::ids::Hash>) -> Option<Seq<char>> {
    match h {
        Some(x) => Some(x@),
        None => None,
    }
}

/// The hash of an entry: of the receipt text alone for the first, else of the previous hash and the text.
pub open spec fn link_hash(prev: Option<Seq<char>>, payload: Seq<char>) -> Seq<char> {
    match prev {
        Some(p) => canonical_hash(seq![p, payload]),
        None => canonical_hash(seq![payload]),
    }
}

/// The state root after an entry: the hash of the root before and the entry's hash.
pub open spec fn next_root(root: Seq<char>, entry_hash: Seq<char>) -> Seq<char> {
    canonical_hash(seq![root, entry_hash])
}

/// Entry `i` is linked to its predecessor by hash and by state root.
pub open spec fn entry_linked(t: Seq<TranscriptEntry>, i: int) -> bool {
    &&& t[i].prev_hash == (if i == 0 { None } else { Some(t[i - 1].entry_hash) })
    &&& t[i].entry_hash@ == link_hash(hash_text(t[i].prev_hash), receipt_text(t[i].receipt@))
    &&& t[i].state_root_after@ == next_root(t[i].state_root_before@, t[i].entry_hash@)
    &&& i > 0 ==> t[i].state_root_before == t[i - 1].state_root_after
}

/// Every entry of the transcript is linked.
pub open spec fn chain_valid(t: Seq<TranscriptEntry>) -> bool {
    forall|i: int| 0 <= i < t.len() ==> #[trigger] entry_linked(t, i)
}

/// The hashes a transcript of the given receipt texts must carry, entry by entry.
pub open spec fn chain_hashes(texts: Seq<Seq<char>>) -> Seq<Seq<char>>
    decreases texts.len(),
{
    if texts.len() == 0 {
        seq![]
    } else {
        let before = chain_hashes(texts.drop_last());
        let prev = if texts.len() == 1 { None } else { Some(before.last()) };
        before.push(link_hash(prev, texts.last()))
    }
}

/// The receipts of a transcript.
pub open spec fn receipts_of(t: Seq<TranscriptEntry>) -> Seq<ReceiptModel> {
    t.map_values(|e: TranscriptEntry| e.receipt@)
}

/// The canonical texts of the receipts of a transcript.
pub open spec fn receipt_texts(t: Seq<TranscriptEntry>) -> Seq<Seq<char>> {
    t.map_values(|e: TranscriptEntry| receipt_text(e.receipt@))
}

/// The head of the transcript: the last entry's hash, or the hash of case and contract.
pub open spec fn head_of(s: Session) -> Seq<char> {
    if s.transcript@.len() > 0 {
        s.transcript@.last().entry_hash@
    } else {
        canonical_hash(seq![s.case_id@, s.contract_hash@])
    }
}

/// The number of worker completions among the receipts.
pub open spec fn count_completed(rs: Seq<ReceiptModel>) -> nat
    decreases rs.len(),
{
    if rs.len() == 0 {
        0
    } else {
        count_completed(rs.drop_last()) + if rs.last() is WorkerCompleted { 1nat } else { 0nat }
    }
}

/// The number of worker yields among the receipts.
pub open spec fn count_yielded(rs: Seq<ReceiptModel>) -> nat
    decreases rs.len(),
{
    if rs.len() == 0 {
        0
    } else {
        count_yielded(rs.drop_last()) + if rs.last() is WorkerYielded { 1nat } else { 0nat }
    }
}

impl Session {
    /// The transcript is hash-chained, and the session's root is the last entry's root.
    pub open spec fn well_formed(&self) -> bool {
        &&& chain_valid(self.transcript@)
        &&& self.transcript@.len() > 0 ==> self.transcript@.last().state_root_after == self.state_root
    }

    /// Appends a receipt, produced by the step whose action has the given canonical text and
    /// which started with the given budget: the entry is linked to the previous one by hash,
    /// and the state root moves to the hash of the old root and the entry's hash.
    pub fn append_receipt(&mut self, receipt: StepReceipt, action_canonical: String, budget_before: u64)
        ensures
            old(self).well_formed() ==> final(self).well_formed(),
            final(self).transcript@.len() == old(self).transcript@.len() + 1,
            final(self).transcript@.drop_last() == old(self).transcript@,
            final(self).transcript@.last().receipt@ == receipt@,
            final(self).transcript@.last().prev_hash == (if old(self).transcript@.len() == 0 {
                None
            } else {
                Some(old(self).transcript@.last().entry_hash)
            }),
            final(self).transcript@.last().state_root_after@ == next_root(
                old(self).state_root@,
                final(self).transcript@.last().entry_hash@,
            ),
            final(self).transcript@.last().action_canonical == action_canonical,
            final(self).transcript@.last().budget_before == budget_before,
            final(self).transcript@.last().budget_after == old(self).budget_remaining,
            final(self).transcript@.last().state_root_before == old(self).state_root,
            final(self).state_root == final(self).transcript@.last().state_root_after,
            final(self).transcript@.last().entry_hash@ == link_hash(
                if old(self).transcript@.len() == 0 { None } else { Some(old(self).transcript@.last().entry_hash@) },
                receipt_text(receipt@),
            ),
            *final(self) == (Session { transcript: final(self).transcript, state_root: final(self).state_root, ..*old(self) }),
    {
        let n = self.transcript.len();
        let prev_hash = if n == 0 {
            None
        } else {
            Some(self.transcript[n - 1].entry_hash.clone())
        };
        let payload = receipt.canonical();
        let next_hash = match &prev_hash {
            Some(prev) => hash_two(prev.as_str(), payload.as_str()),
            None => hash_one(payload.as_str()),
        };
        let root_before = self.state_root.clone();
        let root_hash = hash_two(root_before.as_str(), next_hash.as_str());
        let root_after = Cid::new(root_hash.as_str());
        let entry = TranscriptEntry {
            receipt,
            prev_hash,
            entry_hash: next_hash,
            action_canonical,
            budget_before,
            budget_after: self.budget_remaining,
            state_root_before: root_before,
            state_root_after: root_after.clone(),
        };
        let ghost old_t = self.transcript@;
        self.transcript.push(entry);
        self.state_root = root_after;
        proof {
            let t = self.transcript@;
            assert(t.drop_last() =~= old_t);
            if chain_valid(old_t) && (old_t.len() > 0 ==> old_t.last().state_root_after == root_before) {
                assert forall|i: int| 0 <= i < t.len() implies #[trigger] entry_linked(t, i) by {
                    if i < old_t.len() {
                        assert(entry_linked(old_t, i));
                        assert(t[i] == old_t[i]);
                        if i > 0 {
                            assert(t[i - 1] == old_t[i - 1]);
                        }
                    }
                }
            }
        }
    }

    /// The head of the transcript.
    pub fn transcript_head(&self) -> (h: crate::ids::Hash)
        ensures
            h@ == head_of(*self),
    {
        let n = self.transcript.len();
        if n > 0 {
            self.transcript[n - 1].entry_hash.clone()
        } else {
            hash_two(self.case_id.as_str(), self.contract_hash.as_str())
        }
    }
}

/// The entry hashes of a valid transcript are the chain hashes of its receipt texts.
pub proof fn lemma_chain_hashes(t: Seq<TranscriptEntry>)
    requires
        chain_valid(t),
    ensures
        chain_hashes(receipt_texts(t)).len() == t.len(),
        forall|i: int| 0 <= i < t.len() ==> #[trigger] t[i].entry_hash@ == chain_hashes(receipt_texts(t))[i],
    decreases t.len(),
{
    if t.len() > 0 {
        let s = t.drop_last();
        assert(chain_valid(s)) by {
            assert forall|i: int| 0 <= i < s.len() implies #[trigger] entry_linked(s, i) by {
                assert(entry_linked(t, i));
                if i > 0 {
                    assert(s[i - 1] == t[i - 1]);
                }
            }
        }
        lemma_chain_hashes(s);
        assert(receipt_texts(t).drop_last() =~= receipt_texts(s));
        let n = t.len() - 1;
        assert(entry_linked(t, n));
        assert forall|i: int| 0 <= i < t.len() implies #[trigger] t[i].entry_hash@ == chain_hashes(receipt_texts(t))[i] by {
            if i < n {
                assert(t[i] == s[i]);
            }
        }
    }
}

/// Replay: two valid transcripts with the same receipts carry the same entry hashes, so a
/// session's head is fixed by its case, its contract and the receipts it recorded.
pub proof fn law_head_is_fixed_by_receipts(a: Session, b: Session)
    requires
        a.well_formed(),
        b.well_formed(),
        a.case_id@ == b.case_id@,
        a.contract_hash@ == b.contract_hash@,
        receipts_of(a.transcript@) == receipts_of(b.transcript@),
    ensures
        head_of(a) == head_of(b),
{
    lemma_chain_hashes(a.transcript@);
    lemma_chain_hashes(b.transcript@);
    let ta = a.transcript@;
    let tb = b.transcript@;
    assert(ta.len() == receipts_of(ta).len());
    assert(receipt_texts(ta) =~= receipt_texts(tb)) by {
        assert forall|i: int| 0 <= i < ta.len() implies receipt_texts(ta)[i] == receipt_texts(tb)[i] by {
            assert(receipts_of(ta)[i] == receipts_of(tb)[i]);
        }
    }
    if ta.len() > 0 {
        assert(ta.last().entry_hash@ == chain_hashes(receipt_texts(ta))[ta.len() - 1]);
        assert(tb.last().entry_hash@ == chain_hashes(receipt_texts(tb))[tb.len() - 1]);
    }
}

/// The head covers the whole chain: for a well-formed session with receipts, the head is the
/// chain hash of all its receipt texts, the hash of the last entry.
pub proof fn law_head_is_last_chain_hash(s: Session)
    requires
        s.well_formed(),
        s.transcript@.len() > 0,
    ensures
        head_of(s) == chain_hashes(receipt_texts(s.transcript@)).last(),
        head_of(s) == s.transcript@[s.transcript@.len() - 1].entry_hash@,
{
    lemma_chain_hashes(s.transcript@);
}

/// Appending a receipt moves the head to the new entry's hash, which links the old head (when
/// there was one) with the new receipt's text.
pub proof fn law_append_moves_head(before: Session, after: Session)
    requires
        before.well_formed(),
        after.well_formed(),
        after.transcript@.len() == before.transcript@.len() + 1,
        after.transcript@.drop_last() == before.transcript@,
    ensures
        head_of(after) == link_hash(
            if before.transcript@.len() == 0 { None } else { Some(head_of(before)) },
            receipt_text(after.transcript@.last().receipt@),
        ),
{
    let t = after.transcript@;
    let n = t.len() - 1;
    assert(entry_linked(t, n));
    if n > 0 {
        assert(t[n - 1] == t.drop_last()[n - 1]);
    }
}

/// Append-only: appending a receipt keeps every earlier entry as it was.
pub proof fn law_append_keeps_history(before: Seq<TranscriptEntry>, after: Seq<TranscriptEntry>, i: int)
    requires
        after.len() == before.len() + 1,
        after.drop_last() == before,
        0 <= i < before.len(),
    ensures
        after[i] == before[i],
{
    assert(after.drop_last()[i] == after[i]);
}

/// What a contract sees of a session.
#[derive(Debug, Clone)]
pub struct SessionView {
    pub case_id: CaseId,
    pub contract_hash: crate::ids::Hash,
    pub budget_remaining: u64,
    pub state_root: Cid,
    pub transcript_len: usize,
    pub worker_completed_count: usize,
    pub worker_yielded_count: usize,
    pub final_receipt_cid: Option<ReceiptCid>,
}

/// The view of a session.
pub open spec fn view_of(s: Session) -> SessionView {
    SessionView {
        case_id: s.case_id,
        contract_hash: s.contract_hash,
        budget_remaining: s.budget_remaining,
        state_root: s.state_root,
        transcript_len: s.transcript@.len() as usize,
        worker_completed_count: count_completed(receipts_of(s.transcript@)) as usize,
        worker_yielded_count: count_yielded(receipts_of(s.transcript@)) as usize,
        final_receipt_cid: s.final_receipt_cid,
    }
}

/// A copy of an optional receipt cid.
pub fn copy_receipt_cid(c: &Option<ReceiptCid>) -> (r: Option<ReceiptCid>)
    ensures
        r == *c,
{
    match c {
        Some(x) => Some(x.clone()),
        None => None,
    }
}

/// A copy of an optional cid.
pub fn copy_cid_opt(c: &Option<Cid>) -> (r: Option<Cid>)
    ensures
        r == *c,
{
    match c {
        Some(x) => Some(x.clone()),
        None => None,
    }
}

fn count_receipts(t: &Vec<TranscriptEntry>) -> (r: (usize, usize))
    ensures
        r.0 == count_completed(receipts_of(t@)),
        r.1 == count_yielded(receipts_of(t@)),
{
    let mut completed: usize = 0;
    let mut yielded: usize = 0;
    let mut i: usize = 0;
    while i < t.len()
        invariant
            i <= t.len(),
            completed == count_completed(receipts_of(t@.take(i as int))),
            yielded == count_yielded(receipts_of(t@.take(i as int))),
            completed <= i,
            yielded <= i,
        decreases t.len() - i,
    {
        proof {
            assert(receipts_of(t@.take(i + 1)).drop_last() =~= receipts_of(t@.take(i as int)));
        }
        if t[i].receipt.is_worker_completed() {
            completed = completed + 1;
        }
        if t[i].receipt.is_worker_yielded() {
            yielded = yielded + 1;
        }
        i += 1;
    }
    assert(t@.take(t@.len() as int) =~= t@);
    (completed, yielded)
}

impl<'a> vstd::std_specs::convert::FromSpecImpl<&'a Session> for SessionView {
    open spec fn obeys_from_spec() -> bool {
        true
    }

    open spec fn from_spec(v: &'a Session) -> SessionView {
        view_of(*v)
    }
}

impl<'a> From<&'a Session> for SessionView {
    /// Copies what a contract may see, counting completed and yielded worker runs.
    fn from(value: &'a Session) -> (v: SessionView) {
        let (completed, yielded) = count_receipts(&value.transcript);
        SessionView {
            case_id: value.case_id.clone(),
            contract_hash: value.contract_hash.clone(),
            budget_remaining: value.budget_remaining,
            state_root: value.state_root.clone(),
            transcript_len: value.transcript.len(),
            worker_completed_count: completed,
            worker_yielded_count: yielded,
            final_receipt_cid: copy_receipt_cid(&value.final_receipt_cid),
        }
    }
}

/// The certificate of a case: the transcript head, the receipts, and the outcome.
#[derive(Debug, Clone)]
pub struct ProofPack {
    pub proof_pack_cid: ProofPackCid,
    pub case_id: CaseId,
    pub contract_hash: crate::ids::Hash,
    pub initial_budget: u64,
    pub event_count: u64,
    pub transcript_head: crate::ids::Hash,
    pub transcript_receipts: Vec<StepReceipt>,
    pub final_state_root: Cid,
    pub final_outcome: FinalOutcome,
    pub final_receipt_cid: Option<ReceiptCid>,
    pub worker_cid: Option<Cid>,
    pub task_cid: Option<Cid>,
    pub continuation_cids_used: Vec<Cid>,
    pub manager_receipt_cids: Vec<ReceiptCid>,
}

/// The views of a list of receipts.
pub open spec fn receipt_models(rs: Seq<StepReceipt>) -> Seq<ReceiptModel> {
    rs.map_values(|r: StepReceipt| r@)
}

/// The cid of the proof pack of a session: the hash of case, contract and transcript head.
pub open spec fn proof_cid_of(s: Session) -> Seq<char> {
    canonical_hash(seq![s.case_id@, s.contract_hash@, head_of(s)])
}

/// The proof pack is the certificate of the session with the given outcome.
pub open spec fn certifies(p: ProofPack, s: Session, outcome: FinalOutcome) -> bool {
    &&& p.proof_pack_cid@ == proof_cid_of(s)
    &&& p.case_id == s.case_id
    &&& p.contract_hash == s.contract_hash
    &&& p.initial_budget == s.initial_budget
    &&& p.event_count == s.transcript@.len()
    &&& p.transcript_head@ == head_of(s)
    &&& receipt_models(p.transcript_receipts@) == receipts_of(s.transcript@)
    &&& p.final_state_root == s.state_root
    &&& p.final_outcome == outcome
    &&& p.final_receipt_cid == s.final_receipt_cid
    &&& p.worker_cid == s.last_worker_cid
    &&& p.task_cid == s.last_task_cid
    &&& p.continuation_cids_used@ == s.continuation_cids_used@
    &&& p.manager_receipt_cids@ == s.manager_receipt_cids@
}

fn copy_receipt_cids(v: &Vec<ReceiptCid>) -> (out: Vec<ReceiptCid>)
    ensures
        out@ == v@,
{
    let mut out: Vec<ReceiptCid> = Vec::new();
    let mut i: usize = 0;
    while i < v.len()
        invariant
            i <= v.len(),
            out@ == v@.take(i as int),
        decreases v.len() - i,
    {
        out.push(v[i].clone());
        proof {
            assert(v@.take(i + 1) =~= v@.take(i as int).push(v@[i as int]));
        }
        i += 1;
    }
    assert(v@.take(v@.len() as int) =~= v@);
    out
}

/// Builds the proof pack of the session with the given outcome.
pub fn build_proof(session: &Session, final_outcome: FinalOutcome) -> (p: ProofPack)
    ensures
        certifies(p, *session, final_outcome),
{
    let transcript_head = session.transcript_head();
    let cid_hash = hash_three(session.case_id.as_str(), session.contract_hash.as_str(), transcript_head.as_str());
    let proof_pack_cid = ProofPackCid::new(cid_hash.as_str());
    let mut receipts: Vec<StepReceipt> = Vec::new();
    let mut i: usize = 0;
    while i < session.transcript.len()
        invariant
            i <= session.transcript@.len(),
            receipts@.len() == i,
            forall|j: int| 0 <= j < i ==> receipts@[j]@ == session.transcript@[j].receipt@,
        decreases session.transcript@.len() - i,
    {
        receipts.push(session.transcript[i].receipt.clone());
        i += 1;
    }
    assert(receipt_models(receipts@) =~= receipts_of(session.transcript@));
    ProofPack {
        proof_pack_cid,
        case_id: session.case_id.clone(),
        contract_hash: session.contract_hash.clone(),
        initial_budget: session.initial_budget,
        event_count: session.transcript.len() as u64,
        transcript_head,
        transcript_receipts: receipts,
        final_state_root: session.state_root.clone(),
        final_outcome,
        final_receipt_cid: copy_receipt_cid(&session.final_receipt_cid),
        worker_cid: copy_cid_opt(&session.last_worker_cid),
        task_cid: copy_cid_opt(&session.last_task_cid),
        continuation_cids_used: crate::transcript::copy_cids(&session.continuation_cids_used),
        manager_receipt_cids: copy_receipt_cids(&session.manager_receipt_cids),
    }
}

/// The proof pack cid is fixed by case, contract and transcript head.
pub proof fn law_proof_cid_fixed_by_head(a: Session, b: Session)
    requires
        a.case_id@ == b.case_id@,
        a.contract_hash@ == b.contract_hash@,
        head_of(a) == head_of(b),
    ensures
        proof_cid_of(a) == proof_cid_of(b),
{
}

/// Replay gives the same cryptographic proof: two proof packs that certify well-formed sessions
/// of the same case and contract, whose transcripts recorded the same receipts, carry the same
/// transcript head and the same proof pack cid.
pub proof fn law_replay_same_receipts_same_proof(
    p1: ProofPack,
    s1: Session,
    o1: FinalOutcome,
    p2: ProofPack,
    s2: Session,
    o2: FinalOutcome,
)
    requires
        certifies(p1, s1, o1),
        certifies(p2, s2, o2),
        s1.well_formed(),
        s2.well_formed(),
        s1.case_id@ == s2.case_id@,
        s1.contract_hash@ == s2.contract_hash@,
        receipt_models(p1.transcript_receipts@) == receipt_models(p2.transcript_receipts@),
    ensures
        p1.transcript_head@ == p2.transcript_head@,
        p1.proof_pack_cid@ == p2.proof_pack_cid@,
{
    law_head_is_fixed_by_receipts(s1, s2);
    law_proof_cid_fixed_by_head(s1, s2);
}

} // verus!
