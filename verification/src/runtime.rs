//! The runtime: contracts decide, workers run with yield, and every step leaves receipts.

use vstd::prelude::*;

use crate::ids::{Cid, ReceiptCid};
use crate::keyed_map::KeyedMap;
use crate::session::{
    Session, SessionView, build_proof, certifies, receipts_of, view_of, ProofPack,
};
use crate::storage::{fault_debug, AtomBody, AtomSpace, EpistemicHeat, PageFault, UniversalAtom, heat_in};
use crate::transcript::{
    action_text, cid_texts, ComputeAction, FinalOutcome, ReceiptModel, RejectReason, StepAction, StepDecision,
    StepReceipt,
};
use crate::worker::{worker_error_label, OutOfGas, WorkerAbi, WorkerError, WorkerHostEnv, WorkerResult, WorkerYield};

verus! {

/// Where a contract runs.
#[derive(Debug, Clone, Copy, PartialEq, Eq, Structural)]
pub enum ExecutionTarget {
    Wasm { abi_version: u32 },
    Native,
}

/// The determinism promises of a contract.
#[derive(Debug, Clone, Copy, PartialEq, Eq, Structural)]
pub struct DeterminismProfile {
    pub fixed_point_only: bool,
    pub allow_user_input: bool,
    pub allow_time_oracle: bool,
    pub allow_external_fetch: bool,
    pub execution_target: ExecutionTarget,
}

/// A contract: a replayable decision function over what a session shows, and the price of actions.
pub trait Contract {
    /// The decision for a session view.
    spec fn decide(&self, view: SessionView) -> StepDecision;

    /// The price of an action in a session view.
    spec fn price(&self, action: StepAction, view: SessionView) -> u64;

    fn eval_step(&self, session: &SessionView) -> (d: StepDecision)
        ensures
            d == self.decide(*session),
    ;

    fn cost_of(&self, action: &StepAction, session: &SessionView) -> (c: u64)
        ensures
            c == self.price(*action, *session),
    ;

    fn determinism_profile(&self) -> DeterminismProfile;
}

/// `after` differs from `before` at most in a budget that did not grow.
pub open spec fn only_budget_spent(before: Session, after: Session) -> bool {
    &&& after == (Session { budget_remaining: after.budget_remaining, ..before })
    &&& after.budget_remaining <= before.budget_remaining
}

/// An action a runtime performed, with the receipts it gave back, or none when it failed.
pub struct Performed {
    pub action: StepAction,
    pub receipts: Option<Seq<ReceiptModel>>,
}

/// What a call of `execute` on the action leaves in the log of performed actions.
pub open spec fn performed_as(action: StepAction, r: Result<Vec<StepReceipt>, String>) -> Performed {
    Performed {
        action,
        receipts: match r {
            Ok(rs) => Some(models(rs@)),
            Err(_) => None,
        },
    }
}

/// The receipts of a performed action have the shape its kind calls for: a worker run gives the
/// worker's yields on the task and then its completion, a materialization gives the atom's
/// receipt, and a witness gives the witness's receipt and never fails.
pub open spec fn performed_ok(p: Performed) -> bool {
    match p.action {
        StepAction::Compute(ComputeAction::RunWorker { worker_cid, task_cid }) => p.receipts matches Some(rs)
            ==> worker_run_receipts(rs, worker_cid@, task_cid@),
        StepAction::Materialize { cid } => p.receipts matches Some(rs) ==> rs == seq![
            ReceiptModel::AtomMaterialized { atom: cid@ },
        ],
        StepAction::Witness { witness_kind, prompt_cid } => p.receipts == Some(
            seq![ReceiptModel::HumanWitnessed { kind: witness_kind@, answer: prompt_cid@ }],
        ),
    }
}

/// What performs the actions of steps.
pub trait RuntimeOps {
    /// The actions performed so far, in order.
    spec fn performed(&self) -> Seq<Performed>;

    fn execute(&mut self, session: &mut Session, action: &StepAction) -> (r: Result<Vec<StepReceipt>, String>)
        ensures
            only_budget_spent(*old(session), *final(session)),
            final(self).performed() == old(self).performed().push(performed_as(*action, r)),
            performed_ok(performed_as(*action, r)),
    ;
}

/// The bytes an atom hands over: its inline bytes, or the text of its chunk root.
pub open spec fn atom_bytes(atom: UniversalAtom) -> Seq<u8> {
    match atom.body {
        AtomBody::Inline(bytes) => bytes@,
        AtomBody::Chunked { root_cid, .. } => vstd::utf8::encode_utf8(root_cid@),
    }
}

/// The host environment of a worker: an atom space it may read and the gas it may spend; the
/// runtime takes the gas back into the session when the worker returns.
pub struct AtomSpaceHostEnv<'a, S: AtomSpace> {
    pub atom_space: &'a S,
    pub gas_remaining: u64,
}

impl<'a, S: AtomSpace> WorkerHostEnv for AtomSpaceHostEnv<'a, S> {
    open spec fn gas(&self) -> u64 {
        self.gas_remaining
    }

    open spec fn readable(&self, cid: Seq<char>) -> Option<Seq<u8>> {
        if heat_in(self.atom_space.heat_view(), cid) == EpistemicHeat::Hot && self.atom_space.atom_view().contains_key(cid) {
            Some(atom_bytes(self.atom_space.atom_view()[cid]))
        } else {
            None
        }
    }

    /// Hands over a hot atom; a colder one is a page fault, a hot one not held needs the network.
    fn request_atom(&mut self, cid: &Cid) -> (r: Result<Vec<u8>, PageFault>)
        ensures
            *final(self) == *old(self),
            ({
                let h = heat_in(old(self).atom_space.heat_view(), cid@);
                let atoms = old(self).atom_space.atom_view();
                if h != EpistemicHeat::Hot {
                    r matches Err(PageFault::AtomNotHot { cid: c, current }) && c@ == cid@ && current == h
                } else if !atoms.contains_key(cid@) {
                    r matches Err(PageFault::NetworkRequired { cid: c }) && c@ == cid@
                } else {
                    r matches Ok(bytes) && bytes@ == atom_bytes(atoms[cid@])
                }
            }),
    {
        let current = self.atom_space.current_heat(cid);
        if current != EpistemicHeat::Hot {
            return Err(PageFault::AtomNotHot { cid: cid.clone(), current });
        }
        match self.atom_space.get_atom(cid) {
            None => Err(PageFault::NetworkRequired { cid: cid.clone() }),
            Some(atom) => match &atom.body {
                AtomBody::Inline(bytes) => Ok(bytes.clone()),
                AtomBody::Chunked { root_cid, .. } => Ok(root_cid.as_str().as_bytes_vec()),
            },
        }
    }

    /// Takes gas if enough remains.
    fn consume_gas(&mut self, amount: u64) -> (r: Result<(), OutOfGas>)
        ensures
            old(self).gas_remaining < amount ==> r == Err::<(), OutOfGas>(
                OutOfGas { required: amount, available: old(self).gas_remaining },
            ) && final(self).gas_remaining == old(self).gas_remaining,
            old(self).gas_remaining >= amount ==> r is Ok && final(self).gas_remaining
                == old(self).gas_remaining - amount,
            final(self).atom_space == old(self).atom_space,
    {
        if self.gas_remaining < amount {
            return Err(OutOfGas { required: amount, available: self.gas_remaining });
        }
        self.gas_remaining = self.gas_remaining - amount;
        Ok(())
    }
}


/// A yield of the given worker on the given task.
pub open spec fn yield_of(r: ReceiptModel, worker: Seq<char>, task: Seq<char>) -> bool {
    r matches ReceiptModel::WorkerYielded { worker: w, task: t, .. } && w == worker && t == task
}

/// A completion of the given worker on the given task.
pub open spec fn completion_of(r: ReceiptModel, worker: Seq<char>, task: Seq<char>) -> bool {
    r matches ReceiptModel::WorkerCompleted { worker: w, task: t, .. } && w == worker && t == task
}

/// The receipts of one worker run: at most seven yields, then the completion.
pub open spec fn worker_run_receipts(rs: Seq<ReceiptModel>, worker: Seq<char>, task: Seq<char>) -> bool {
    &&& 1 <= rs.len() <= 8
    &&& forall|i: int| 0 <= i < rs.len() - 1 ==> #[trigger] yield_of(rs[i], worker, task)
    &&& completion_of(rs.last(), worker, task)
}

/// The views of a list of step receipts.
pub open spec fn models(rs: Seq<StepReceipt>) -> Seq<ReceiptModel> {
    rs.map_values(|r: StepReceipt| r@)
}

/// A call the runtime made on a worker: a task to execute, or a continuation to resume.
pub enum WorkerCall {
    Execute { worker: Seq<char>, task: Seq<char> },
    Resume { worker: Seq<char>, continuation: Seq<char> },
}

/// The calls a run of a worker on a task makes for the receipts it produced: the task to
/// execute, then a resume on the continuation of each yield, in order.
pub open spec fn calls_for(rs: Seq<ReceiptModel>, worker: Seq<char>, task: Seq<char>) -> Seq<WorkerCall> {
    seq![WorkerCall::Execute { worker, task }] + Seq::new(
        (rs.len() - 1) as nat,
        |i: int| WorkerCall::Resume { worker, continuation: yield_continuation(rs[i]) },
    )
}

/// The continuation of a yield receipt.
pub open spec fn yield_continuation(r: ReceiptModel) -> Seq<char> {
    match r {
        ReceiptModel::WorkerYielded { continuation, .. } => continuation,
        _ => seq![],
    }
}

/// The runtime of a node: an atom space, registered workers, whether to heat missing atoms,
/// and the calls it made on workers so far.
pub struct SovereignRuntime<'a, S: AtomSpace, W: WorkerAbi> {
    pub atom_space: &'a mut S,
    pub workers: KeyedMap<Cid, W>,
    pub auto_heat_on_yield: bool,
    pub worker_calls: Ghost<Seq<WorkerCall>>,
    pub performed_actions: Ghost<Seq<Performed>>,
    pub resume_heats: Ghost<Seq<ResumeHeat>>,
}

/// What a resume of a worker found: the cids its yield missed, and the heat of every tracked
/// atom when the worker was resumed.
pub struct ResumeHeat {
    pub missing: Seq<Seq<char>>,
    pub heats: Map<Seq<char>, EpistemicHeat>,
}

/// Every atom the yield missed was hot when the worker was resumed.
pub open spec fn missing_all_hot(r: ResumeHeat) -> bool {
    forall|j: int| 0 <= j < r.missing.len() ==> heat_in(r.heats, #[trigger] r.missing[j]) == EpistemicHeat::Hot
}

/// The cids a yield receipt names as missing.
pub open spec fn yield_missing(r: ReceiptModel) -> Seq<Seq<char>> {
    match r {
        ReceiptModel::WorkerYielded { missing, .. } => missing,
        _ => seq![],
    }
}

/// The resumes one run of a worker added: one per resume call it logged, each after the
/// missing atoms were heated when the runtime heats on yield; the earlier resumes stay.
pub open spec fn resumes_logged(
    before: Seq<ResumeHeat>,
    after: Seq<ResumeHeat>,
    resumes: int,
    auto_heat: bool,
) -> bool {
    &&& after.len() == before.len() + resumes
    &&& after.subrange(0, before.len() as int) == before
    &&& auto_heat ==> forall|i: int| before.len() <= i < after.len() ==> #[trigger] missing_all_hot(after[i])
}

/// Hands the worker a host over the atom space with the given gas: it executes the task, or
/// resumes the continuation. The worker only reads the atom space, and gives back the gas it
/// did not spend.
fn call_worker<S: AtomSpace, W: WorkerAbi>(worker: &mut W, space: &S, gas: u64, cid: &Cid, resuming: bool) -> (r: (
    WorkerResult,
    u64,
))
    ensures
        r.1 <= gas,
{
    let mut env = AtomSpaceHostEnv { atom_space: space, gas_remaining: gas };
    let res = if resuming {
        worker.resume(cid, &mut env)
    } else {
        worker.execute(cid, &mut env)
    };
    (res, env.gas_remaining)
}

impl<'a, S: AtomSpace, W: WorkerAbi> SovereignRuntime<'a, S, W> {
    /// A runtime over the atom space, with no workers, that heats missing atoms on yield.
    pub fn new(atom_space: &'a mut S) -> (rt: Self)
        ensures
            rt.workers@ == Map::<Seq<char>, W>::empty(),
            rt.auto_heat_on_yield,
            *rt.atom_space == *old(atom_space),
            rt.worker_calls@ == Seq::<WorkerCall>::empty(),
            rt.performed_actions@ == Seq::<Performed>::empty(),
            rt.resume_heats@ == Seq::<ResumeHeat>::empty(),
    {
        SovereignRuntime {
            atom_space,
            workers: KeyedMap::new(),
            auto_heat_on_yield: true,
            worker_calls: Ghost(Seq::empty()),
            performed_actions: Ghost(Seq::empty()),
            resume_heats: Ghost(Seq::empty()),
        }
    }

    /// Registers a worker under its cid, replacing any worker registered there.
    pub fn register_worker(&mut self, worker_cid: Cid, worker: W)
        ensures
            final(self).workers@ == old(self).workers@.insert(worker_cid@, worker),
            final(self).auto_heat_on_yield == old(self).auto_heat_on_yield,
            final(self).worker_calls == old(self).worker_calls,
            final(self).performed_actions == old(self).performed_actions,
            final(self).resume_heats == old(self).resume_heats,
    {
        self.workers.insert(worker_cid, worker);
    }

    /// Runs a registered worker, heating what it misses and resuming it, until it completes.
    /// An unregistered worker is reported missing. Otherwise the run fails only when the worker
    /// reports a failure, when a missing atom cannot be heated, or after eight yields; and it
    /// succeeds with the worker's yields followed by its completion.
    fn run_worker(&mut self, session: &mut Session, worker_cid: &Cid, task_cid: &Cid) -> (r: Result<Vec<StepReceipt>, String>)
        ensures
            only_budget_spent(*old(session), *final(session)),
            final(self).workers@.dom() == old(self).workers@.dom(),
            final(self).auto_heat_on_yield == old(self).auto_heat_on_yield,
            final(self).performed_actions == old(self).performed_actions,
            final(self).atom_space.atom_view() == old(self).atom_space.atom_view(),
            heats_only_rise(old(self).atom_space.heat_view(), final(self).atom_space.heat_view()),
            old(self).auto_heat_on_yield ==> (r matches Ok(rs) ==> yields_hot(
                models(rs@),
                final(self).atom_space.heat_view(),
            )),
            !old(self).workers@.contains_key(worker_cid@) ==> (r matches Err(e) && e@ == "missing worker: "@ + worker_cid@)
                && *final(session) == *old(session) && *final(self).atom_space == *old(self).atom_space
                && final(self).worker_calls == old(self).worker_calls && final(self).workers@ == old(self).workers@
                && final(self).resume_heats == old(self).resume_heats,
            old(self).workers@.contains_key(worker_cid@) ==> resumes_logged(
                old(self).resume_heats@,
                final(self).resume_heats@,
                final(self).worker_calls@.len() - old(self).worker_calls@.len() - 1,
                old(self).auto_heat_on_yield,
            ),
            old(self).workers@.contains_key(worker_cid@) ==> calls_logged(
                old(self).worker_calls@,
                final(self).worker_calls@,
                worker_cid@,
                task_cid@,
            ) && (r matches Err(e) ==> worker_run_error(e@)) && (r matches Err(e) && e@
                == "worker exceeded continuation depth"@ ==> final(self).worker_calls@.len() == old(self).worker_calls@.len()
                + 9),
            r matches Ok(rs) ==> worker_run_receipts(models(rs@), worker_cid@, task_cid@)
                && final(self).worker_calls@ == old(self).worker_calls@ + calls_for(models(rs@), worker_cid@, task_cid@)
                && forall|i: int| 0 <= i < rs@.len() - 1 ==> (#[trigger] final(self).resume_heats@[old(self).resume_heats@.len() + i]).missing
                    == yield_missing(models(rs@)[i]),
    {
        let ghost s0 = *session;
        let ghost h0 = self.resume_heats@;
        let mut worker = match self.workers.remove(worker_cid.as_str()) {
            Some(w) => w,
            None => {
                let msg = "missing worker: ".to_string().concat(worker_cid.as_str());
                return Err(msg);
            },
        };
        let mut out: Vec<StepReceipt> = Vec::new();
        let (mut result, gas_left) = call_worker(&mut worker, &*self.atom_space, session.budget_remaining, task_cid, false);
        session.budget_remaining = gas_left;
        self.worker_calls = Ghost(self.worker_calls@.push(WorkerCall::Execute { worker: worker_cid@, task: task_cid@ }));
        assert(self.worker_calls@ =~= old(self).worker_calls@ + seq![WorkerCall::Execute { worker: worker_cid@, task: task_cid@ }]
            + Seq::new(0 as nat, |i: int| WorkerCall::Resume { worker: worker_cid@, continuation: yield_continuation(models(out@)[i]) }));
        let mut round: usize = 0;
        while round < 8
            invariant
                only_budget_spent(s0, *session),
                s0 == *old(session),
                out@.len() == round,
                round <= 8,
                forall|i: int| 0 <= i < out@.len() ==> #[trigger] yield_of(out@[i]@, worker_cid@, task_cid@),
                self.workers@ == old(self).workers@.remove(worker_cid@),
                old(self).workers@.contains_key(worker_cid@),
                self.auto_heat_on_yield == old(self).auto_heat_on_yield,
                self.performed_actions == old(self).performed_actions,
                self.worker_calls@ == old(self).worker_calls@ + seq![WorkerCall::Execute { worker: worker_cid@, task: task_cid@ }]
                    + Seq::new(round as nat, |i: int| WorkerCall::Resume { worker: worker_cid@, continuation: yield_continuation(models(out@)[i]) }),
                h0 == old(self).resume_heats@,
                self.atom_space.atom_view() == old(self).atom_space.atom_view(),
                heats_only_rise(old(self).atom_space.heat_view(), self.atom_space.heat_view()),
                self.auto_heat_on_yield ==> yields_hot(models(out@), self.atom_space.heat_view()),
                self.resume_heats@.len() == h0.len() + round,
                self.resume_heats@.subrange(0, h0.len() as int) == h0,
                self.auto_heat_on_yield ==> forall|i: int| h0.len() <= i < self.resume_heats@.len() ==> #[trigger] missing_all_hot(self.resume_heats@[i]),
                forall|i: int| 0 <= i < round ==> (#[trigger] self.resume_heats@[h0.len() + i]).missing == yield_missing(models(out@)[i]),
            decreases 8 - round,
        {
            let ghost before = out@;
            match record_worker_result(&mut out, result, worker_cid, task_cid) {
                RoundOutcome::Completed => {
                    self.workers.insert(worker_cid.clone(), worker);
                    proof {
                        assert(self.workers@.dom() =~= old(self).workers@.dom());
                        let ms = models(out@);
                        assert forall|i: int| 0 <= i < ms.len() - 1 implies #[trigger] yield_of(ms[i], worker_cid@, task_cid@) by {
                            assert(models(before)[i] == before[i]@);
                            assert(ms[i] == models(before)[i]);
                        }
                        assert(ms.last() == models(out@)[out@.len() - 1]);
                        assert(Seq::new((ms.len() - 1) as nat, |i: int| WorkerCall::Resume { worker: worker_cid@, continuation: yield_continuation(ms[i]) })
                            =~= Seq::new(round as nat, |i: int| WorkerCall::Resume { worker: worker_cid@, continuation: yield_continuation(models(before)[i]) }));
                        assert(self.worker_calls@ =~= old(self).worker_calls@ + calls_for(ms, worker_cid@, task_cid@));
                        lemma_calls_logged(old(self).worker_calls@, Seq::new(round as nat, |i: int| WorkerCall::Resume { worker: worker_cid@, continuation: yield_continuation(models(before)[i]) }), worker_cid@, task_cid@);
                        assert forall|i: int| 0 <= i < out@.len() - 1 implies (#[trigger] self.resume_heats@[h0.len() + i]).missing
                            == yield_missing(models(out@)[i]) by {
                            assert(ms[i] == models(before)[i]);
                        }
                    }
                    return Ok(out);
                },
                RoundOutcome::Failed(msg) => {
                    self.workers.insert(worker_cid.clone(), worker);
                    proof {
                        assert(self.workers@.dom() =~= old(self).workers@.dom());
                        lemma_calls_logged(old(self).worker_calls@, Seq::new(round as nat, |i: int| WorkerCall::Resume { worker: worker_cid@, continuation: yield_continuation(models(out@)[i]) }), worker_cid@, task_cid@);
                        reveal_strlit("worker failure: ");
                        reveal_strlit("worker exceeded continuation depth");
                        assert(msg@[7] != "worker exceeded continuation depth"@[7]);
                    }
                    return Err(msg);
                },
                RoundOutcome::Resume(yielded) => {
                    proof {
                        assert(models(out@).len() == out@.len());
                        assert(models(before).len() == before.len());
                        assert forall|i: int| 0 <= i < out@.len() implies #[trigger] yield_of(out@[i]@, worker_cid@, task_cid@) by {
                            assert(models(out@)[i] == out@[i]@);
                            if i < before.len() {
                                assert(models(before)[i] == before[i]@);
                            }
                        }
                    }
                    if self.auto_heat_on_yield {
                        let mut k: usize = 0;
                        while k < yielded.missing_cids.len()
                            invariant
                                k <= yielded.missing_cids.len(),
                                self.workers@ == old(self).workers@.remove(worker_cid@),
                                self.auto_heat_on_yield == old(self).auto_heat_on_yield,
                                self.performed_actions == old(self).performed_actions,
                                old(self).workers@.contains_key(worker_cid@),
                                only_budget_spent(s0, *session),
                                s0 == *old(session),
                                out@.len() == round + 1,
                                round < 8,
                                forall|i: int| 0 <= i < out@.len() ==> #[trigger] yield_of(out@[i]@, worker_cid@, task_cid@),
                                self.worker_calls@ == old(self).worker_calls@ + seq![WorkerCall::Execute { worker: worker_cid@, task: task_cid@ }]
                                    + Seq::new(round as nat, |i: int| WorkerCall::Resume { worker: worker_cid@, continuation: yield_continuation(models(before)[i]) }),
                                h0 == old(self).resume_heats@,
                                self.atom_space.atom_view() == old(self).atom_space.atom_view(),
                                heats_only_rise(old(self).atom_space.heat_view(), self.atom_space.heat_view()),
                                yields_hot(models(before), self.atom_space.heat_view()),
                                models(out@).drop_last() == models(before),
                                models(out@).last() matches ReceiptModel::WorkerYielded { missing, .. } && missing == cid_texts(yielded.missing_cids@),
                                self.resume_heats@.len() == h0.len() + round,
                                self.resume_heats@.subrange(0, h0.len() as int) == h0,
                                self.auto_heat_on_yield,
                                forall|i: int| h0.len() <= i < self.resume_heats@.len() ==> #[trigger] missing_all_hot(self.resume_heats@[i]),
                                forall|i: int| 0 <= i < round ==> (#[trigger] self.resume_heats@[h0.len() + i]).missing == yield_missing(models(before)[i]),
                                forall|j: int| 0 <= j < k ==> heat_in(self.atom_space.heat_view(), (#[trigger] yielded.missing_cids@[j])@)
                                    == EpistemicHeat::Hot,
                            decreases yielded.missing_cids.len() - k,
                        {
                            let cid = &yielded.missing_cids[k];
                            match self.atom_space.heat_up(cid, EpistemicHeat::Hot) {
                                Ok(()) => {},
                                Err(fault) => {
                                    self.workers.insert(worker_cid.clone(), worker);
                                    proof {
                                        assert(self.workers@.dom() =~= old(self).workers@.dom());
                                        lemma_calls_logged(old(self).worker_calls@, Seq::new(round as nat, |i: int| WorkerCall::Resume { worker: worker_cid@, continuation: yield_continuation(models(before)[i]) }), worker_cid@, task_cid@);
                                    }
                                    let msg = "heat_up failed for ".to_string().concat(cid.as_str()).concat(": ").concat(
                                        fault.debug_text().as_str(),
                                    );
                                    assert(msg@ == heat_failure_text(cid@, fault));
                                    proof {
                                        reveal_strlit("heat_up failed for ");
                                        reveal_strlit("worker exceeded continuation depth");
                                        assert(msg@[0] != "worker exceeded continuation depth"@[0]);
                                    }
                                    return Err(msg);
                                },
                            }
                            k += 1;
                        }
                    }
                    let ghost heats_now = self.atom_space.heat_view();
                    proof {
                        assert(self.auto_heat_on_yield ==> forall|j: int| 0 <= j < yielded.missing_cids@.len() ==> heat_in(
                            heats_now,
                            (#[trigger] yielded.missing_cids@[j])@,
                        ) == EpistemicHeat::Hot);
                    }
                    let (res, gas_left) = call_worker(
                        &mut worker,
                        &*self.atom_space,
                        session.budget_remaining,
                        &yielded.continuation_cid,
                        true,
                    );
                    result = res;
                    session.budget_remaining = gas_left;
                    let ghost calls0 = self.worker_calls@;
                    self.worker_calls = Ghost(self.worker_calls@.push(
                        WorkerCall::Resume { worker: worker_cid@, continuation: yielded.continuation_cid@ },
                    ));
                    let ghost rh0 = self.resume_heats@;
                    self.resume_heats = Ghost(self.resume_heats@.push(
                        ResumeHeat { missing: cid_texts(yielded.missing_cids@), heats: heats_now },
                    ));
                    proof {
                        let rh = self.resume_heats@;
                        assert(rh.subrange(0, h0.len() as int) =~= rh0.subrange(0, h0.len() as int));
                        assert(yield_missing(models(out@)[round as int]) == cid_texts(yielded.missing_cids@));
                        if self.auto_heat_on_yield {
                            assert forall|j: int| 0 <= j < rh.last().missing.len() implies heat_in(rh.last().heats, #[trigger] rh.last().missing[j])
                                == EpistemicHeat::Hot by {
                                assert(cid_texts(yielded.missing_cids@)[j] == yielded.missing_cids@[j]@);
                            }
                            assert forall|i: int| h0.len() <= i < rh.len() implies #[trigger] missing_all_hot(rh[i]) by {
                                if i < rh.len() - 1 {
                                    assert(rh[i] == rh0[i]);
                                }
                            }
                        }
                        assert forall|i: int| 0 <= i < round + 1 implies (#[trigger] rh[h0.len() + i]).missing == yield_missing(models(out@)[i]) by {
                            if i < round {
                                assert(rh[h0.len() + i] == rh0[h0.len() + i]);
                                assert(models(out@)[i] == models(before)[i]);
                            }
                        }
                        assert(yield_continuation(models(out@)[round as int]) == yielded.continuation_cid@);
                        assert forall|i: int| 0 <= i < round implies models(out@)[i] == models(before)[i] by {}
                        assert(self.worker_calls@ =~= old(self).worker_calls@ + seq![WorkerCall::Execute { worker: worker_cid@, task: task_cid@ }]
                            + Seq::new((round + 1) as nat, |i: int| WorkerCall::Resume { worker: worker_cid@, continuation: yield_continuation(models(out@)[i]) }));
                    }
                },
            }
            round += 1;
        }
        self.workers.insert(worker_cid.clone(), worker);
        proof {
            assert(self.workers@.dom() =~= old(self).workers@.dom());
            lemma_calls_logged(old(self).worker_calls@, Seq::new(round as nat, |i: int| WorkerCall::Resume { worker: worker_cid@, continuation: yield_continuation(models(out@)[i]) }), worker_cid@, task_cid@);
        }
        Err("worker exceeded continuation depth".to_string())
    }
}

/// Heat only rose to hot: every atom is at its old heat or hot.
pub open spec fn heats_only_rise(before: Map<Seq<char>, EpistemicHeat>, after: Map<Seq<char>, EpistemicHeat>) -> bool {
    forall|c: Seq<char>| #[trigger] heat_in(after, c) == heat_in(before, c) || heat_in(after, c) == EpistemicHeat::Hot
}

/// Every atom that some yield among the receipts missed is hot.
pub open spec fn yields_hot(rs: Seq<ReceiptModel>, heats: Map<Seq<char>, EpistemicHeat>) -> bool {
    forall|i: int, j: int|
        0 <= i < rs.len() && 0 <= j < yield_missing(rs[i]).len() ==> heat_in(heats, #[trigger] yield_missing(rs[i])[j])
            == EpistemicHeat::Hot
}

/// The calls one run of a worker on a task added to the log: the task executed once, then
/// resumes of the same worker, at most eight; the earlier calls stay as they were.
pub open spec fn calls_logged(before: Seq<WorkerCall>, after: Seq<WorkerCall>, worker: Seq<char>, task: Seq<char>) -> bool {
    &&& before.len() + 1 <= after.len() <= before.len() + 9
    &&& after.subrange(0, before.len() as int) == before
    &&& after[before.len() as int] == WorkerCall::Execute { worker, task }
    &&& forall|i: int| before.len() < i < after.len() ==> (#[trigger] after[i]) is Resume && after[i]->Resume_worker == worker
}

proof fn lemma_calls_logged(before: Seq<WorkerCall>, rest: Seq<WorkerCall>, worker: Seq<char>, task: Seq<char>)
    requires
        rest.len() <= 8,
        forall|i: int| 0 <= i < rest.len() ==> (#[trigger] rest[i]) is Resume && rest[i]->Resume_worker == worker,
    ensures
        calls_logged(before, before + seq![WorkerCall::Execute { worker, task }] + rest, worker, task),
{
    let after = before + seq![WorkerCall::Execute { worker, task }] + rest;
    assert(after.subrange(0, before.len() as int) =~= before);
    assert forall|i: int| before.len() < i < after.len() implies (#[trigger] after[i]) is Resume && after[i]->Resume_worker
        == worker by {
        assert(after[i] == rest[i - before.len() - 1]);
    }
}

/// The errors a run of a registered worker ends in: the worker's own failure, an atom that could
/// not be heated, or too many yields.
pub open spec fn worker_run_error(e: Seq<char>) -> bool {
    ||| exists|err: WorkerError| e == "worker failure: "@ + #[trigger] worker_error_label(err)
    ||| exists|c: Seq<char>, f: PageFault| e == #[trigger] heat_failure_text(c, f)
    ||| e == "worker exceeded continuation depth"@
}

/// The error of an atom that could not be heated: its cid and the page fault as `Debug` writes it.
pub open spec fn heat_failure_text(cid: Seq<char>, f: PageFault) -> Seq<char> {
    "heat_up failed for "@ + cid + ": "@ + fault_debug(f)
}

/// The error of an atom that could not be materialized: the page fault as `Debug` writes it.
pub open spec fn materialize_failure_text(f: PageFault) -> Seq<char> {
    "materialize failed: "@ + fault_debug(f)
}

/// What the runtime does after one result of a worker.
pub enum RoundOutcome {
    Completed,
    Resume(WorkerYield),
    Failed(String),
}

/// Records one result of a worker: a completion or a yield becomes a receipt of the worker on
/// the task; a completion ends the run, a yield asks for a resume, and a failure ends the run
/// with the worker's error.
pub fn record_worker_result(out: &mut Vec<StepReceipt>, result: WorkerResult, worker_cid: &Cid, task_cid: &Cid) -> (o: RoundOutcome)
    ensures
        match result {
            WorkerResult::Complete(c) => o is Completed && models(final(out)@) == models(old(out)@).push(
                ReceiptModel::WorkerCompleted { worker: worker_cid@, task: task_cid@, receipt: c@ },
            ),
            WorkerResult::Yield(y) => o == RoundOutcome::Resume(y) && models(final(out)@) == models(old(out)@).push(
                ReceiptModel::WorkerYielded {
                    worker: worker_cid@,
                    task: task_cid@,
                    missing: cid_texts(y.missing_cids@),
                    continuation: y.continuation_cid@,
                },
            ),
            WorkerResult::Fail(err) => (o matches RoundOutcome::Failed(e) && e@ == "worker failure: "@ + worker_error_label(err))
                && final(out)@ == old(out)@,
        },
{
    let ghost before = out@;
    match result {
        WorkerResult::Complete(receipt_cid) => {
            out.push(StepReceipt::WorkerCompleted { worker_cid: worker_cid.clone(), task_cid: task_cid.clone(), receipt_cid });
            assert(models(out@) =~= models(before).push(out@.last()@));
            RoundOutcome::Completed
        },
        WorkerResult::Yield(yielded) => {
            out.push(StepReceipt::WorkerYielded {
                worker_cid: worker_cid.clone(),
                task_cid: task_cid.clone(),
                missing_cids: crate::transcript::copy_cids(&yielded.missing_cids),
                continuation_cid: yielded.continuation_cid.clone(),
            });
            assert(models(out@) =~= models(before).push(out@.last()@));
            RoundOutcome::Resume(yielded)
        },
        WorkerResult::Fail(err) => RoundOutcome::Failed("worker failure: ".to_string().concat(err.label())),
    }
}

impl<'a, S: AtomSpace, W: WorkerAbi> RuntimeOps for SovereignRuntime<'a, S, W> {
    open spec fn performed(&self) -> Seq<Performed> {
        self.performed_actions@
    }

    /// Performs the action: runs a worker, heats an atom, or records a witness.
    fn execute(&mut self, session: &mut Session, action: &StepAction) -> (r: Result<Vec<StepReceipt>, String>)
        ensures
            final(self).workers@.dom() == old(self).workers@.dom(),
            final(self).auto_heat_on_yield == old(self).auto_heat_on_yield,
            match *action {
                StepAction::Compute(ComputeAction::RunWorker { worker_cid, task_cid }) => {
                    &&& !old(self).workers@.contains_key(worker_cid@) ==> (r matches Err(e) && e@ == "missing worker: "@ + worker_cid@)
                        && *final(session) == *old(session) && *final(self).atom_space == *old(self).atom_space
                        && final(self).worker_calls == old(self).worker_calls && final(self).workers@ == old(self).workers@
                        && final(self).resume_heats == old(self).resume_heats
                    &&& final(self).atom_space.atom_view() == old(self).atom_space.atom_view()
                    &&& heats_only_rise(old(self).atom_space.heat_view(), final(self).atom_space.heat_view())
                    &&& old(self).auto_heat_on_yield ==> (r matches Ok(rs) ==> yields_hot(
                        models(rs@),
                        final(self).atom_space.heat_view(),
                    ))
                    &&& old(self).workers@.contains_key(worker_cid@) ==> resumes_logged(
                        old(self).resume_heats@,
                        final(self).resume_heats@,
                        final(self).worker_calls@.len() - old(self).worker_calls@.len() - 1,
                        old(self).auto_heat_on_yield,
                    )
                    &&& old(self).workers@.contains_key(worker_cid@) ==> calls_logged(
                        old(self).worker_calls@,
                        final(self).worker_calls@,
                        worker_cid@,
                        task_cid@,
                    ) && (r matches Err(e) ==> worker_run_error(e@)) && (r matches Err(e) && e@
                        == "worker exceeded continuation depth"@ ==> final(self).worker_calls@.len()
                        == old(self).worker_calls@.len() + 9)
                    &&& r matches Ok(rs) ==> worker_run_receipts(models(rs@), worker_cid@, task_cid@)
                        && final(self).worker_calls@ == old(self).worker_calls@ + calls_for(models(rs@), worker_cid@, task_cid@)
                        && forall|i: int| 0 <= i < rs@.len() - 1 ==> (#[trigger] final(self).resume_heats@[old(self).resume_heats@.len() + i]).missing
                            == yield_missing(models(rs@)[i])
                },
                StepAction::Materialize { cid } => {
                    &&& *final(session) == *old(session)
                    &&& final(self).worker_calls == old(self).worker_calls
                    &&& final(self).resume_heats == old(self).resume_heats
                    &&& final(self).workers@ == old(self).workers@
                    &&& final(self).atom_space.atom_view() == old(self).atom_space.atom_view()
                    &&& r matches Err(e) ==> exists|f: PageFault| e@ == #[trigger] materialize_failure_text(f)
                    &&& r is Ok ==> heat_in(final(self).atom_space.heat_view(), cid@) == EpistemicHeat::Hot
                    &&& r matches Ok(rs) ==> models(rs@) == seq![ReceiptModel::AtomMaterialized { atom: cid@ }]
                },
                StepAction::Witness { witness_kind, prompt_cid } => {
                    &&& r matches Ok(rs) && models(rs@) == seq![ReceiptModel::HumanWitnessed { kind: witness_kind@, answer: prompt_cid@ }]
                    &&& *final(session) == *old(session)
                    &&& *final(self).atom_space == *old(self).atom_space
                    &&& final(self).workers@ == old(self).workers@
                    &&& final(self).worker_calls == old(self).worker_calls
                    &&& final(self).resume_heats == old(self).resume_heats
                },
            },
    {
        let r = match action {
            StepAction::Compute(ComputeAction::RunWorker { worker_cid, task_cid }) => {
                self.run_worker(session, worker_cid, task_cid)
            },
            StepAction::Materialize { cid } => {
                match self.atom_space.heat_up(cid, EpistemicHeat::Hot) {
                    Ok(()) => {
                        let out = vec![StepReceipt::AtomMaterialized { atom_cid: cid.clone() }];
                        assert(models(out@) =~= seq![ReceiptModel::AtomMaterialized { atom: cid@ }]);
                        Ok(out)
                    },
                    Err(fault) => {
                        let e = "materialize failed: ".to_string().concat(fault.debug_text().as_str());
                        assert(e@ == materialize_failure_text(fault));
                        Err(e)
                    },
                }
            },
            StepAction::Witness { witness_kind, prompt_cid } => {
                let out = vec![StepReceipt::HumanWitnessed {
                    witness_kind: witness_kind.clone(),
                    answer_cid: prompt_cid.clone(),
                }];
                assert(models(out@) =~= seq![ReceiptModel::HumanWitnessed { kind: witness_kind@, answer: prompt_cid@ }]);
                Ok(out)
            },
        };
        self.performed_actions = Ghost(self.performed_actions@.push(performed_as(*action, r)));
        r
    }
}


/// The continuations of the yields among the receipts, in order.
pub open spec fn continuations(rs: Seq<ReceiptModel>) -> Seq<Seq<char>>
    decreases rs.len(),
{
    if rs.len() == 0 {
        seq![]
    } else {
        let before = continuations(rs.drop_last());
        match rs.last() {
            ReceiptModel::WorkerYielded { continuation, .. } => before.push(continuation),
            _ => before,
        }
    }
}

/// The last worker completion among the receipts, if any.
pub open spec fn last_completion(rs: Seq<ReceiptModel>) -> Option<ReceiptModel>
    decreases rs.len(),
{
    if rs.len() == 0 {
        None
    } else if rs.last() is WorkerCompleted {
        Some(rs.last())
    } else {
        last_completion(rs.drop_last())
    }
}

/// After recording `new_receipts`, the session lists their continuations after the earlier
/// ones, and remembers the worker, task and receipt of the last completion among them.
pub open spec fn bookkeeping_follows(before: Session, after: Session, new_receipts: Seq<ReceiptModel>) -> bool {
    &&& cid_texts(after.continuation_cids_used@) == cid_texts(before.continuation_cids_used@) + continuations(new_receipts)
    &&& match last_completion(new_receipts) {
        Some(ReceiptModel::WorkerCompleted { worker, task, receipt }) => {
            &&& after.final_receipt_cid matches Some(r) && r@ == receipt
            &&& after.last_worker_cid matches Some(w) && w@ == worker
            &&& after.last_task_cid matches Some(t) && t@ == task
        },
        _ => {
            &&& after.final_receipt_cid == before.final_receipt_cid
            &&& after.last_worker_cid == before.last_worker_cid
            &&& after.last_task_cid == before.last_task_cid
        },
    }
}

proof fn lemma_continuations_append(a: Seq<ReceiptModel>, b: Seq<ReceiptModel>)
    ensures
        continuations(a + b) == continuations(a) + continuations(b),
        last_completion(a + b) == if last_completion(b) is Some { last_completion(b) } else { last_completion(a) },
    decreases b.len(),
{
    if b.len() == 0 {
        assert(a + b =~= a);
        assert(continuations(a) + continuations(b) =~= continuations(a));
    } else {
        lemma_continuations_append(a, b.drop_last());
        assert((a + b).drop_last() =~= a + b.drop_last());
        assert((a + b).last() == b.last());
        match b.last() {
            ReceiptModel::WorkerYielded { continuation, .. } => {
                assert(continuations(a + b) =~= continuations(a) + continuations(b));
            },
            _ => {},
        }
    }
}

/// Records the receipts of one step: each joins the transcript with the step's action text and
/// starting budget; yields add their continuation, and a completion sets the final receipt,
/// worker and task.
pub fn record_receipts(session: &mut Session, receipts: Vec<StepReceipt>, action_canonical: &String, budget_before: u64)
    ensures
        old(session).well_formed() ==> final(session).well_formed(),
        final(session).transcript@.len() == old(session).transcript@.len() + receipts@.len(),
        final(session).transcript@.subrange(0, old(session).transcript@.len() as int) == old(session).transcript@,
        receipts_of(final(session).transcript@).subrange(
            old(session).transcript@.len() as int,
            final(session).transcript@.len() as int,
        ) == models(receipts@),
        forall|i: int|
            old(session).transcript@.len() <= i < final(session).transcript@.len() ==> (#[trigger] final(session).transcript@[i]).action_canonical@
                == action_canonical@ && final(session).transcript@[i].budget_before == budget_before
                && final(session).transcript@[i].budget_after == old(session).budget_remaining,
        final(session).case_id == old(session).case_id,
        final(session).contract_hash == old(session).contract_hash,
        final(session).initial_budget == old(session).initial_budget,
        final(session).budget_remaining == old(session).budget_remaining,
        final(session).proof_mode == old(session).proof_mode,
        final(session).final_proof_pack_cid == old(session).final_proof_pack_cid,
        final(session).manager_receipt_cids == old(session).manager_receipt_cids,
        bookkeeping_follows(*old(session), *final(session), models(receipts@)),
{
    let ghost s0 = *session;
    let ghost n0 = session.transcript@.len();
    let mut i: usize = 0;
    proof {
        assert(models(receipts@).take(0) =~= Seq::<ReceiptModel>::empty());
        assert(cid_texts(s0.continuation_cids_used@) + continuations(Seq::<ReceiptModel>::empty()) =~= cid_texts(s0.continuation_cids_used@));
    }
    while i < receipts.len()
        invariant
            i <= receipts@.len(),
            s0 == *old(session),
            n0 == s0.transcript@.len(),
            s0.well_formed() ==> session.well_formed(),
            session.transcript@.len() == n0 + i,
            session.transcript@.subrange(0, n0 as int) == s0.transcript@,
            receipts_of(session.transcript@).subrange(n0 as int, n0 + i) == models(receipts@).take(i as int),
            forall|j: int| n0 <= j < session.transcript@.len() ==> (#[trigger] session.transcript@[j]).action_canonical@
                == action_canonical@ && session.transcript@[j].budget_before == budget_before
                && session.transcript@[j].budget_after == s0.budget_remaining,
            session.case_id == s0.case_id,
            session.contract_hash == s0.contract_hash,
            session.initial_budget == s0.initial_budget,
            session.budget_remaining == s0.budget_remaining,
            session.proof_mode == s0.proof_mode,
            session.final_proof_pack_cid == s0.final_proof_pack_cid,
            session.manager_receipt_cids == s0.manager_receipt_cids,
            bookkeeping_follows(s0, *session, models(receipts@).take(i as int)),
        decreases receipts@.len() - i,
    {
        let receipt = receipts[i].clone();
        let ghost before = *session;
        match &receipt {
            StepReceipt::WorkerYielded { continuation_cid, .. } => {
                session.continuation_cids_used.push(continuation_cid.clone());
            },
            StepReceipt::WorkerCompleted { worker_cid, task_cid, receipt_cid } => {
                session.last_worker_cid = Some(worker_cid.clone());
                session.last_task_cid = Some(task_cid.clone());
                session.final_receipt_cid = Some(receipt_cid.clone());
            },
            _ => {},
        }
        let ghost mid = *session;
        session.append_receipt(receipt, action_canonical.clone(), budget_before);
        proof {
            let ms = models(receipts@);
            let t = session.transcript@;
            assert(ms.take(i + 1) =~= ms.take(i as int) + seq![ms[i as int]]);
            lemma_continuations_append(ms.take(i as int), seq![ms[i as int]]);
            assert(seq![ms[i as int]].drop_last() =~= Seq::<ReceiptModel>::empty());
            assert(t.subrange(0, n0 as int) =~= before.transcript@.subrange(0, n0 as int));
            assert(receipts_of(t).subrange(n0 as int, n0 + i + 1) =~= receipts_of(before.transcript@).subrange(n0 as int, n0 + i).push(receipt@)) by {
                assert forall|j: int| n0 <= j < n0 + i implies t[j] == before.transcript@[j] by {
                    assert(t.drop_last()[j] == t[j]);
                }
            }
            let single = seq![ms[i as int]];
            assert(single.drop_last() =~= Seq::<ReceiptModel>::empty());
            assert(continuations(Seq::<ReceiptModel>::empty()) =~= Seq::<Seq<char>>::empty());
            assert(last_completion(Seq::<ReceiptModel>::empty()) is None);
            assert(ms[i as int] == receipt@);
            assert(single.last() == receipt@);
            assert(cid_texts(mid.continuation_cids_used@) == cid_texts(before.continuation_cids_used@) + continuations(single)) by {
                match receipt@ {
                    ReceiptModel::WorkerYielded { continuation, .. } => {
                        assert(cid_texts(mid.continuation_cids_used@) =~= cid_texts(before.continuation_cids_used@).push(continuation));
                        assert(continuations(single) =~= seq![continuation]);
                    },
                    _ => {
                        assert(continuations(single) =~= Seq::<Seq<char>>::empty());
                        assert(cid_texts(before.continuation_cids_used@) + continuations(single) =~= cid_texts(before.continuation_cids_used@));
                    },
                }
            }
            assert(bookkeeping_follows(before, mid, single)) by {
                match receipt@ {
                    ReceiptModel::WorkerYielded { continuation, .. } => {
                        assert(cid_texts(mid.continuation_cids_used@) =~= cid_texts(before.continuation_cids_used@).push(continuation));
                        assert(continuations(single) =~= seq![continuation]);
                        assert(last_completion(single) is None);
                    },
                    ReceiptModel::WorkerCompleted { worker, task, receipt: rc } => {
                        assert(continuations(single) =~= Seq::<Seq<char>>::empty());
                        assert(cid_texts(before.continuation_cids_used@) + continuations(single) =~= cid_texts(before.continuation_cids_used@));
                        assert(last_completion(single) == Some(receipt@));
                        assert(mid.final_receipt_cid matches Some(r) && r@ == rc);
                        assert(mid.last_worker_cid matches Some(w) && w@ == worker);
                        assert(mid.last_task_cid matches Some(t) && t@ == task);
                    },
                    _ => {
                        assert(continuations(single) =~= Seq::<Seq<char>>::empty());
                        assert(cid_texts(before.continuation_cids_used@) + continuations(single) =~= cid_texts(before.continuation_cids_used@));
                        assert(last_completion(single) is None);
                    },
                }
            }
            lemma_bookkeeping_chain(s0, before, mid, *session, ms.take(i as int), single);
            assert forall|j: int| n0 <= j < t.len() implies (#[trigger] t[j]).action_canonical@ == action_canonical@ && t[j].budget_before == budget_before
                && t[j].budget_after == s0.budget_remaining by {
                if j < t.len() - 1 {
                    assert(t.drop_last()[j] == t[j]);
                }
            }
        }
        i += 1;
    }
    proof {
        assert(models(receipts@).take(receipts@.len() as int) =~= models(receipts@));
    }
}

/// What a commit outputs: the final receipt when there is one, else the state root.
pub open spec fn commit_output(s: Session) -> Seq<char> {
    match s.final_receipt_cid {
        Some(r) => r@,
        None => s.state_root@,
    }
}

/// The receipts recorded after the first `from` entries.
pub open spec fn receipts_after(s: Session, from: int) -> Seq<ReceiptModel> {
    receipts_of(s.transcript@).subrange(from, s.transcript@.len() as int)
}

/// Budgets only go down from entry `from` on: each entry left at most the budget it started
/// with, later entries started with at most what earlier ones started with, and the session
/// holds at most what each entry left.
pub open spec fn budgets_descend(s: Session, from: int) -> bool {
    &&& forall|i: int|
        from <= i < s.transcript@.len() ==> (#[trigger] s.transcript@[i]).budget_after <= s.transcript@[i].budget_before
            && s.budget_remaining <= s.transcript@[i].budget_after
    &&& forall|i: int, j: int|
        from <= i < j < s.transcript@.len() ==> (#[trigger] s.transcript@[j]).budget_before <= (
        #[trigger] s.transcript@[i]).budget_before
}

/// What a run does to a session: it keeps the case, the contract and the history, extends the
/// hash-chained transcript, never adds budget, and keeps the bookkeeping of the new receipts.
pub open spec fn run_effect(before: Session, after: Session) -> bool {
    &&& before.well_formed() ==> after.well_formed()
    &&& after.case_id == before.case_id
    &&& after.contract_hash == before.contract_hash
    &&& after.initial_budget == before.initial_budget
    &&& after.proof_mode == before.proof_mode
    &&& after.manager_receipt_cids == before.manager_receipt_cids
    &&& before.transcript@.len() <= after.transcript@.len()
    &&& after.transcript@.subrange(0, before.transcript@.len() as int) == before.transcript@
    &&& after.budget_remaining <= before.budget_remaining
    &&& budgets_descend(after, before.transcript@.len() as int)
    &&& bookkeeping_follows(before, after, receipts_after(after, before.transcript@.len() as int))
}

/// The session with another remaining budget.
pub open spec fn with_budget(s: Session, b: u64) -> Session {
    Session { budget_remaining: b, ..s }
}

/// The outcome is the one the contract's decision on the final session calls for: a commit
/// was decided; a reject was decided; the run is out of budget when the contract continued
/// with a step that costs more than what remains; and an execution failure ends a step the
/// contract continued with and the budget could pay.
pub open spec fn outcome_explained<C: Contract>(contract: &C, s: Session, outcome: FinalOutcome) -> bool {
    match outcome {
        FinalOutcome::Commit { output_cid } => {
            &&& contract.decide(view_of(s)) is Commit
            &&& output_cid@ == commit_output(s)
        },
        FinalOutcome::Reject { reason } => {
            ||| contract.decide(view_of(s)) == StepDecision::Reject(reason)
            ||| (reason == RejectReason::OutOfBudget && (contract.decide(view_of(s)) matches StepDecision::Continue(a)
                && contract.price(a, view_of(s)) > s.budget_remaining))
            ||| (reason == RejectReason::InternalExecutionFailure && exists|b: u64| #![trigger with_budget(s, b)]
                b >= s.budget_remaining && (contract.decide(view_of(with_budget(s, b))) matches StepDecision::Continue(a)
                && contract.price(a, view_of(with_budget(s, b))) <= b))
        },
    }
}

/// Entry `i` was recorded by a step the contract continued with: its action is the decided one,
/// on a view with the entry's starting budget that the step's price fits.
pub open spec fn entry_decided<C: Contract>(contract: &C, s: Session, i: int) -> bool {
    exists|v: SessionView|
        (#[trigger] contract.decide(v) matches StepDecision::Continue(a) && v.budget_remaining == s.transcript@[i].budget_before
            && contract.price(a, v) <= v.budget_remaining && action_text(a) == s.transcript@[i].action_canonical@)
}

/// Every entry recorded after the first `from` was recorded by a step the contract decided.
pub open spec fn steps_decided<C: Contract>(contract: &C, s: Session, from: int) -> bool {
    forall|i: int| from <= i < s.transcript@.len() ==> #[trigger] entry_decided(contract, s, i)
}

/// The receipts the performed actions gave back, in order.
pub open spec fn performed_receipts(p: Seq<Performed>) -> Seq<ReceiptModel>
    decreases p.len(),
{
    if p.len() == 0 {
        seq![]
    } else {
        performed_receipts(p.drop_last()) + match p.last().receipts {
            Some(rs) => rs,
            None => seq![],
        }
    }
}

/// The contract continued with the action on a view whose budget the action's price fits.
pub open spec fn action_decided<C: Contract>(contract: &C, a: StepAction) -> bool {
    exists|v: SessionView|
        #![trigger contract.decide(v)]
        contract.decide(v) == StepDecision::Continue(a) && contract.price(a, v) <= v.budget_remaining
}

/// The actions a run handed to the runtime: at most `u64::MAX` of them, each one the contract
/// continued with and paid for; every one but the last gave back receipts, and the transcript
/// gained exactly those receipts. A failed action ends the run as an execution failure, and an
/// execution failure comes from a failed action, from the step limit, or from the contract.
pub open spec fn run_performed<C: Contract>(
    contract: &C,
    from: int,
    after: Session,
    p: Seq<Performed>,
    outcome: FinalOutcome,
) -> bool {
    &&& p.len() <= u64::MAX
    &&& forall|i: int| 0 <= i < p.len() ==> #[trigger] action_decided(contract, p[i].action)
    &&& forall|i: int| 0 <= i < p.len() ==> #[trigger] performed_ok(p[i])
    &&& forall|i: int| 0 <= i < p.len() - 1 ==> (#[trigger] p[i]).receipts is Some
    &&& receipts_after(after, from) == performed_receipts(p)
    &&& (p.len() > 0 && p.last().receipts is None) ==> outcome == (FinalOutcome::Reject {
        reason: RejectReason::InternalExecutionFailure,
    })
    &&& outcome == (FinalOutcome::Reject { reason: RejectReason::InternalExecutionFailure }) ==> {
        ||| contract.decide(view_of(after)) == StepDecision::Reject(RejectReason::InternalExecutionFailure)
        ||| (p.len() > 0 && p.last().receipts is None)
        ||| p.len() == u64::MAX
    }
}

proof fn lemma_run_performed_stop<C: Contract>(
    contract: &C,
    from: int,
    after: Session,
    p: Seq<Performed>,
    outcome: FinalOutcome,
)
    requires
        p.len() <= u64::MAX,
        forall|i: int| 0 <= i < p.len() ==> #[trigger] action_decided(contract, p[i].action) && p[i].receipts is Some
            && performed_ok(p[i]),
        receipts_after(after, from) == performed_receipts(p),
        outcome == (FinalOutcome::Reject { reason: RejectReason::InternalExecutionFailure }) ==> contract.decide(
            view_of(after),
        ) == StepDecision::Reject(RejectReason::InternalExecutionFailure) || p.len() == u64::MAX,
    ensures
        run_performed(contract, from, after, p, outcome),
{
    assert forall|i: int| 0 <= i < p.len() - 1 implies (#[trigger] p[i]).receipts is Some by {
        assert(action_decided(contract, p[i].action));
    }
    assert forall|i: int| 0 <= i < p.len() implies #[trigger] performed_ok(p[i]) by {
        assert(action_decided(contract, p[i].action));
    }
    if p.len() > 0 {
        assert(action_decided(contract, p[p.len() - 1].action));
    }
}

fn finish(session: &mut Session, outcome: FinalOutcome) -> (proof: ProofPack)
    ensures
        certifies(proof, *final(session), outcome),
        *final(session) == (Session { final_proof_pack_cid: Some(proof.proof_pack_cid), ..*old(session) }),
{
    let proof = build_proof(session, outcome);
    session.final_proof_pack_cid = Some(proof.proof_pack_cid.clone());
    proof
}

fn commit_output_cid(session: &Session) -> (c: Cid)
    ensures
        c@ == commit_output(*session),
{
    match &session.final_receipt_cid {
        Some(r) => Cid::new(r.as_str()),
        None => session.state_root.clone(),
    }
}

proof fn lemma_bookkeeping_chain(
    s0: Session,
    s1: Session,
    s2: Session,
    s3: Session,
    a: Seq<ReceiptModel>,
    b: Seq<ReceiptModel>,
)
    requires
        bookkeeping_follows(s0, s1, a),
        bookkeeping_follows(s1, s2, b),
        s3.continuation_cids_used == s2.continuation_cids_used,
        s3.final_receipt_cid == s2.final_receipt_cid,
        s3.last_worker_cid == s2.last_worker_cid,
        s3.last_task_cid == s2.last_task_cid,
    ensures
        bookkeeping_follows(s0, s3, a + b),
{
    lemma_continuations_append(a, b);
    lemma_last_completion_shape(a);
    lemma_last_completion_shape(b);
    assert(cid_texts(s3.continuation_cids_used@) =~= cid_texts(s0.continuation_cids_used@) + continuations(a + b));
    if last_completion(b) is Some {
        assert(last_completion(a + b) == last_completion(b));
    } else {
        assert(last_completion(a + b) == last_completion(a));
    }
}

proof fn lemma_last_completion_shape(rs: Seq<ReceiptModel>)
    ensures
        last_completion(rs) matches Some(r) ==> r is WorkerCompleted,
    decreases rs.len(),
{
    if rs.len() > 0 {
        lemma_last_completion_shape(rs.drop_last());
    }
}

proof fn lemma_run_effect_step(s0: Session, s1: Session, s2: Session, s3: Session, new_rs: Seq<ReceiptModel>, budget_before: u64)
    requires
        run_effect(s0, s1),
        s1.budget_remaining <= budget_before,
        forall|i: int| s0.transcript@.len() <= i < s1.transcript@.len() ==> budget_before <= (#[trigger] s1.transcript@[i]).budget_after,
        forall|i: int|
            s2.transcript@.len() <= i < s3.transcript@.len() ==> (#[trigger] s3.transcript@[i]).budget_before == budget_before
                && s3.transcript@[i].budget_after == s2.budget_remaining,
        s2 == (Session { budget_remaining: s2.budget_remaining, ..s1 }),
        s2.budget_remaining <= s1.budget_remaining,
        s1.well_formed() ==> s3.well_formed(),
        s3.transcript@.len() == s2.transcript@.len() + new_rs.len(),
        s3.transcript@.subrange(0, s2.transcript@.len() as int) == s2.transcript@,
        receipts_of(s3.transcript@).subrange(s2.transcript@.len() as int, s3.transcript@.len() as int) == new_rs,
        s3.case_id == s2.case_id,
        s3.contract_hash == s2.contract_hash,
        s3.initial_budget == s2.initial_budget,
        s3.budget_remaining == s2.budget_remaining,
        s3.proof_mode == s2.proof_mode,
        s3.manager_receipt_cids == s2.manager_receipt_cids,
        bookkeeping_follows(s2, s3, new_rs),
    ensures
        run_effect(s0, s3),
        receipts_after(s3, s0.transcript@.len() as int) == receipts_after(s1, s0.transcript@.len() as int) + new_rs,
{
    let n0 = s0.transcript@.len() as int;
    let n1 = s1.transcript@.len() as int;
    let n3 = s3.transcript@.len() as int;
    let t3 = s3.transcript@;
    assert(s2.transcript == s1.transcript);
    assert(t3.subrange(0, n0) =~= t3.subrange(0, n1).subrange(0, n0));
    let old_rs = receipts_after(s1, n0);
    assert(receipts_after(s3, n0) =~= old_rs + new_rs) by {
        assert forall|j: int| n0 <= j < n1 implies t3[j] == s1.transcript@[j] by {
            assert(t3.subrange(0, n1)[j] == t3[j]);
        }
    }
    assert(bookkeeping_follows(s1, s3, new_rs)) by {
        assert(s2.continuation_cids_used == s1.continuation_cids_used);
        assert(s2.final_receipt_cid == s1.final_receipt_cid);
    }
    lemma_bookkeeping_chain(s0, s1, s3, s3, old_rs, new_rs);
    assert forall|i: int| n0 <= i < n3 implies (#[trigger] t3[i]).budget_after <= t3[i].budget_before
        && s3.budget_remaining <= t3[i].budget_after by {
        if i < n1 {
            assert(t3.subrange(0, n1)[i] == t3[i]);
            assert(s1.transcript@[i] == t3[i]);
        }
    }
    assert forall|i: int, j: int| n0 <= i < j < n3 implies (#[trigger] t3[j]).budget_before <= (#[trigger] t3[i]).budget_before by {
        if j < n1 {
            assert(t3.subrange(0, n1)[i] == t3[i]);
            assert(t3.subrange(0, n1)[j] == t3[j]);
            assert(s1.transcript@[i] == t3[i]);
            assert(s1.transcript@[j] == t3[j]);
        } else if i < n1 {
            assert(t3.subrange(0, n1)[i] == t3[i]);
            assert(s1.transcript@[i] == t3[i]);
        }
    }
}

/// Runs a case: the contract decides on the session's view; each continued step is paid from
/// the budget, performed by the runtime, and its receipts join the transcript; a commit, a
/// reject, a step the budget cannot pay, or a failed execution ends the run with a proof pack.
/// A run that reaches `u64::MAX` steps stops as an execution failure.
pub fn run<C: Contract, R: RuntimeOps>(session: &mut Session, contract: &C, rt: &mut R) -> (proof: ProofPack)
    ensures
        run_effect(*old(session), *final(session)),
        certifies(proof, *final(session), proof.final_outcome),
        final(session).final_proof_pack_cid == Some(proof.proof_pack_cid),
        outcome_explained(contract, *final(session), proof.final_outcome),
        steps_decided(contract, *final(session), old(session).transcript@.len() as int),
        final(rt).performed().len() >= old(rt).performed().len(),
        final(rt).performed().subrange(0, old(rt).performed().len() as int) == old(rt).performed(),
        run_performed(
            contract,
            old(session).transcript@.len() as int,
            *final(session),
            final(rt).performed().skip(old(rt).performed().len() as int),
            proof.final_outcome,
        ),
{
    let ghost s0 = *session;
    let ghost n0 = s0.transcript@.len() as int;
    let ghost p0 = rt.performed();
    let mut steps: u64 = 0;
    proof {
        assert(rt.performed().skip(p0.len() as int) =~= Seq::<Performed>::empty());
        assert(rt.performed().subrange(0, p0.len() as int) =~= p0);
        assert(session.transcript@.subrange(0, s0.transcript@.len() as int) =~= s0.transcript@);
        assert(receipts_after(*session, s0.transcript@.len() as int) =~= Seq::<ReceiptModel>::empty());
        assert(cid_texts(s0.continuation_cids_used@) + continuations(Seq::<ReceiptModel>::empty()) =~= cid_texts(s0.continuation_cids_used@));
    }
    loop
        invariant
            s0 == *old(session),
            n0 == s0.transcript@.len(),
            run_effect(s0, *session),
            session.final_proof_pack_cid == s0.final_proof_pack_cid,
            steps_decided(contract, *session, n0),
            p0 == old(rt).performed(),
            rt.performed().len() == p0.len() + steps,
            rt.performed().subrange(0, p0.len() as int) == p0,
            forall|i: int| 0 <= i < steps ==> #[trigger] action_decided(contract, rt.performed().skip(p0.len() as int)[i].action)
                && rt.performed().skip(p0.len() as int)[i].receipts is Some && performed_ok(
                rt.performed().skip(p0.len() as int)[i],
            ),
            receipts_after(*session, n0) == performed_receipts(rt.performed().skip(p0.len() as int)),
        decreases u64::MAX - steps,
    {
        let view = SessionView::from(&*session);
        let ghost sd = *session;
        assert(view == view_of(sd));
        match contract.eval_step(&view) {
            StepDecision::Commit => {
                let output_cid = commit_output_cid(session);
                let proof = finish(session, FinalOutcome::Commit { output_cid });
                proof {
                    lemma_steps_decided_keep(contract, sd, *session, n0);
                    assert(receipts_after(*session, n0) == receipts_after(sd, n0));
                    lemma_run_performed_stop(contract, n0, *session, rt.performed().skip(p0.len() as int), proof.final_outcome);
                }
                return proof;
            },
            StepDecision::Reject(reason) => {
                let proof = finish(session, FinalOutcome::Reject { reason });
                proof {
                    lemma_steps_decided_keep(contract, sd, *session, n0);
                    assert(receipts_after(*session, n0) == receipts_after(sd, n0));
                    assert(view_of(*session) == view_of(sd));
                    lemma_run_performed_stop(contract, n0, *session, rt.performed().skip(p0.len() as int), proof.final_outcome);
                }
                return proof;
            },
            StepDecision::Continue(action) => {
                let cost = contract.cost_of(&action, &view);
                if session.budget_remaining < cost {
                    let proof = finish(session, FinalOutcome::Reject { reason: RejectReason::OutOfBudget });
                    proof {
                        lemma_steps_decided_keep(contract, sd, *session, n0);
                        assert(receipts_after(*session, n0) == receipts_after(sd, n0));
                        lemma_run_performed_stop(contract, n0, *session, rt.performed().skip(p0.len() as int), proof.final_outcome);
                    }
                    return proof;
                }
                if steps == u64::MAX {
                    let proof = finish(session, FinalOutcome::Reject { reason: RejectReason::InternalExecutionFailure });
                    proof {
                        lemma_steps_decided_keep(contract, sd, *session, n0);
                        assert(with_budget(*session, sd.budget_remaining) == (Session { final_proof_pack_cid: session.final_proof_pack_cid, ..sd }));
                        assert(view_of(with_budget(*session, sd.budget_remaining)) == view_of(sd));
                        assert(receipts_after(*session, n0) == receipts_after(sd, n0));
                        lemma_run_performed_stop(contract, n0, *session, rt.performed().skip(p0.len() as int), proof.final_outcome);
                    }
                    return proof;
                }
                let budget_before = session.budget_remaining;
                session.budget_remaining = session.budget_remaining - cost;
                let ghost s1 = *session;
                let ghost pb = rt.performed().skip(p0.len() as int);
                proof {
                    assert(contract.decide(view) == StepDecision::Continue(action));
                    assert(action_decided(contract, action));
                }
                match rt.execute(session, &action) {
                    Ok(receipts) => {
                        let ghost s2 = *session;
                        let action_text = action.canonical();
                        record_receipts(session, receipts, &action_text, budget_before);
                        proof {
                            assert forall|i: int| s0.transcript@.len() <= i < s1.transcript@.len() implies budget_before <= (#[trigger] s1.transcript@[i]).budget_after by {
                                assert(s1.transcript@[i] == sd.transcript@[i]);
                            }
                            lemma_run_effect_step(s0, s1, s2, *session, models(receipts@), budget_before);
                            let s3 = *session;
                            assert forall|i: int| n0 <= i < s3.transcript@.len() implies #[trigger] entry_decided(contract, s3, i) by {
                                if i < s2.transcript@.len() {
                                    assert(s3.transcript@.subrange(0, s2.transcript@.len() as int)[i] == s3.transcript@[i]);
                                    assert(s2.transcript@[i] == sd.transcript@[i]);
                                    assert(entry_decided(contract, sd, i));
                                } else {
                                    assert(contract.decide(view) matches StepDecision::Continue(a) && a == action);
                                }
                            }
                            let pa = rt.performed().skip(p0.len() as int);
                            assert(pa =~= pb.push(performed_as(action, Ok(receipts))));
                            assert(pa.drop_last() =~= pb);
                            assert(receipts_after(s1, n0) == receipts_after(sd, n0));
                            assert(rt.performed().subrange(0, p0.len() as int) =~= p0);
                            assert forall|i: int| 0 <= i < steps + 1 implies #[trigger] action_decided(contract, pa[i].action)
                                && pa[i].receipts is Some && performed_ok(pa[i]) by {
                                if i < steps {
                                    assert(pa[i] == pb[i]);
                                }
                            }
                        }
                    },
                    Err(e) => {
                        let ghost s2 = *session;
                        let proof = finish(session, FinalOutcome::Reject { reason: RejectReason::InternalExecutionFailure });
                        proof {
                            let pa = rt.performed().skip(p0.len() as int);
                            assert(pa =~= pb.push(performed_as(action, Err(e))));
                            assert(pa.drop_last() =~= pb);
                            assert(performed_receipts(pa) =~= performed_receipts(pb));
                            assert(rt.performed().subrange(0, p0.len() as int) =~= p0);
                            assert(receipts_after(*session, n0) == receipts_after(sd, n0));
                            assert forall|i: int| 0 <= i < pa.len() implies #[trigger] action_decided(contract, pa[i].action) by {
                                if i < steps {
                                    assert(pa[i] == pb[i]);
                                }
                            }
                            assert forall|i: int| 0 <= i < pa.len() - 1 implies (#[trigger] pa[i]).receipts is Some by {
                                assert(pa[i] == pb[i]);
                                assert(action_decided(contract, pb[i].action));
                            }
                            assert forall|i: int| 0 <= i < pa.len() implies #[trigger] performed_ok(pa[i]) by {
                                if i < steps {
                                    assert(pa[i] == pb[i]);
                                    assert(action_decided(contract, pb[i].action));
                                }
                            }
                            assert(run_performed(contract, n0, *session, pa, proof.final_outcome));
                            lemma_steps_decided_keep(contract, sd, *session, n0);
                            assert(with_budget(*session, budget_before) == (Session { final_proof_pack_cid: session.final_proof_pack_cid, ..sd }));
                            assert(view_of(with_budget(*session, budget_before)) == view_of(sd));
                        }
                        return proof;
                    },
                }
                steps = steps + 1;
            },
        }
    }
}

proof fn lemma_steps_decided_keep<C: Contract>(contract: &C, a: Session, b: Session, from: int)
    requires
        steps_decided(contract, a, from),
        b.transcript == a.transcript,
    ensures
        steps_decided(contract, b, from),
{
    assert forall|i: int| from <= i < b.transcript@.len() implies #[trigger] entry_decided(contract, b, i) by {
        assert(entry_decided(contract, a, i));
    }
}

/// Why a proof pack failed verification.
#[derive(Debug)]
#[allow(inconsistent_fields)]
pub enum VerificationError {
    ContractNotFound,
    TranscriptMismatch { step: u64, detail: String },
    BudgetMismatch { step: u64, expected: u64, actual: u64 },
    StateRootMismatch { step: u64, expected: String, actual: String },
    OutcomeMismatch,
    ReceiptMismatch { step: u64 },
}

/// Something that checks proof packs for third parties.
pub trait UniversalVerifier {
    fn verify(&self, pack: &ProofPack) -> Result<(), VerificationError>;
}

} // verus!
