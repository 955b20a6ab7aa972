//! The constitutional decision: inputs and a proposal go in, one of three verdicts comes out.

use vstd::prelude::*;

use crate::ids::{Cid, ReasonCode};
use crate::text::{list_has_text, text_listed};

verus! {

/// The three verdicts a computation can end in.
#[derive(Debug, Clone, Copy, PartialEq, Eq, Structural)]
pub enum Verdict {
    Commit,
    GhostQuestion,
    Reject,
}

/// The contracted error margins and question limits, in Q16 fixed point.
#[derive(Debug, Clone)]
pub struct ErrorContractQ16 {
    pub epsilon_q16: u32,
    pub zero_guess_domains: Vec<String>,
    pub max_questions_per_case: u8,
    pub max_ghosts_per_epoch: u32,
    pub ok_min_q16: u32,
    pub reject_max_q16: u32,
    pub max_risk_q16: u32,
}

/// The resource budget a proposal must fit in.
#[derive(Debug, Clone)]
pub struct BudgetContract {
    pub max_ram_mb: u32,
    pub max_vram_mb: u32,
    pub max_loaded_params_mb: u32,
    pub max_live_context_tokens: u32,
    pub max_rehydrations: u32,
    pub max_escalations: u8,
    pub max_hot_atoms: u32,
}

/// A proposal put up for decision.
#[derive(Debug, Clone)]
pub struct ProposalEnvelope {
    pub hypothesis_cid: Cid,
    pub score_q16: u32,
    pub risk_q16: u32,
    pub required_atoms: Vec<Cid>,
    pub required_workers: Vec<String>,
    pub estimated_ram_mb: u32,
    pub estimated_vram_mb: u32,
    pub estimated_params_mb: u32,
    pub producer_hash: crate::ids::Hash,
}

/// What is known of the case when it is decided.
#[derive(Debug, Clone)]
pub struct GateInputs<'a> {
    pub domain: &'a str,
    pub has_intent: bool,
    pub has_minimum_evidence: bool,
    pub evidence_anchored: bool,
    pub deterministic_proof: bool,
    pub questions_used: u8,
    pub ghosts_used_in_epoch: u32,
    pub escalations_used: u8,
    pub rehydrations_used: u32,
    pub live_ram_mb: u32,
    pub live_vram_mb: u32,
    pub loaded_params_mb: u32,
    pub live_context_tokens: u32,
    pub hot_atoms: u32,
    pub err: &'a ErrorContractQ16,
    pub budget: &'a BudgetContract,
}

/// The decision: a verdict, its reason, and the one next step of a ghost.
#[derive(Debug, Clone)]
pub struct GateDecision {
    pub verdict: Verdict,
    pub reason_code: ReasonCode,
    pub next_action: Option<String>,
}

/// `a + b`, saturating at the largest `u32`.
pub open spec fn sat_add_u32(a: u32, b: u32) -> int {
    if a + b > u32::MAX {
        u32::MAX as int
    } else {
        a + b
    }
}

/// Intent and minimum evidence are both present.
pub open spec fn has_evidence(inp: GateInputs) -> bool {
    inp.has_intent && inp.has_minimum_evidence
}

/// One more question may still be asked in this case and epoch.
pub open spec fn may_ask(inp: GateInputs) -> bool {
    inp.questions_used < inp.err.max_questions_per_case
        && inp.ghosts_used_in_epoch < inp.err.max_ghosts_per_epoch
}

/// The domain forbids guessing and no deterministic proof was given.
pub open spec fn zero_guess_violated(inp: GateInputs) -> bool {
    text_listed(inp.err.zero_guess_domains@, inp.domain@) && !inp.deterministic_proof
}

/// The proposal, added to what is live, would exceed some resource budget.
pub open spec fn over_budget(inp: GateInputs, prop: ProposalEnvelope) -> bool {
    ||| sat_add_u32(inp.live_ram_mb, prop.estimated_ram_mb) > inp.budget.max_ram_mb
    ||| sat_add_u32(inp.live_vram_mb, prop.estimated_vram_mb) > inp.budget.max_vram_mb
    ||| sat_add_u32(inp.loaded_params_mb, prop.estimated_params_mb) > inp.budget.max_loaded_params_mb
    ||| inp.live_context_tokens > inp.budget.max_live_context_tokens
    ||| inp.hot_atoms > inp.budget.max_hot_atoms
}

/// The score clears the commit threshold within the risk limit.
pub open spec fn score_commits(inp: GateInputs, prop: ProposalEnvelope) -> bool {
    prop.score_q16 >= inp.err.ok_min_q16 && prop.risk_q16 <= inp.err.max_risk_q16
}

/// The verdict of the frugal decision.
pub open spec fn gate_verdict(inp: GateInputs, prop: ProposalEnvelope) -> Verdict {
    if !has_evidence(inp) {
        if may_ask(inp) {
            Verdict::GhostQuestion
        } else {
            Verdict::Reject
        }
    } else if !inp.evidence_anchored || zero_guess_violated(inp) || over_budget(inp, prop) {
        Verdict::Reject
    } else if score_commits(inp, prop) {
        Verdict::Commit
    } else if prop.score_q16 <= inp.err.reject_max_q16 {
        Verdict::Reject
    } else {
        Verdict::GhostQuestion
    }
}

/// The reason code of the verdict.
pub open spec fn gate_reason(inp: GateInputs, prop: ProposalEnvelope) -> u32 {
    if !has_evidence(inp) {
        0x01
    } else if !inp.evidence_anchored {
        0x02
    } else if zero_guess_violated(inp) {
        0x08
    } else if over_budget(inp, prop) {
        0x04
    } else if score_commits(inp, prop) {
        0x00
    } else if prop.score_q16 <= inp.err.reject_max_q16 {
        0x20
    } else {
        0x10
    }
}

/// The question a ghost verdict asks, if any.
pub open spec fn gate_next_action(inp: GateInputs, prop: ProposalEnvelope) -> Option<Seq<char>> {
    if !has_evidence(inp) {
        if may_ask(inp) {
            Some("retrieve:"@ + prop.hypothesis_cid@)
        } else {
            None
        }
    } else if gate_verdict(inp, prop) == Verdict::GhostQuestion {
        Some("ask_human_witness"@)
    } else {
        None
    }
}

fn decision(verdict: Verdict, reason: ReasonCode, next_action: Option<String>) -> (d: GateDecision)
    ensures
        d.verdict == verdict,
        d.reason_code == reason,
        d.next_action == next_action,
{
    GateDecision { verdict, reason_code: reason, next_action }
}

/// Decides a proposal: missing evidence asks one question while questions remain, unanchored
/// evidence, an unproven zero-guess domain or a blown budget reject, then the score decides.
pub fn gate_run(inp: GateInputs<'_>, prop: &ProposalEnvelope) -> (d: GateDecision)
    ensures
        d.verdict == gate_verdict(inp, *prop),
        d.reason_code.0 == gate_reason(inp, *prop),
        d.next_action.deep_view() == gate_next_action(inp, *prop),
{
    if !inp.has_intent || !inp.has_minimum_evidence {
        if inp.questions_used < inp.err.max_questions_per_case
            && inp.ghosts_used_in_epoch < inp.err.max_ghosts_per_epoch
        {
            let action = "retrieve:".to_string().concat(prop.hypothesis_cid.as_str());
            proof {
                reveal_strlit("retrieve:");
            }
            return decision(Verdict::GhostQuestion, ReasonCode::missing_evidence(), Some(action));
        }
        return decision(Verdict::Reject, ReasonCode::missing_evidence(), None);
    }
    if !inp.evidence_anchored {
        return decision(Verdict::Reject, ReasonCode::unanchored(), None);
    }
    if list_has_text(&inp.err.zero_guess_domains, inp.domain) && !inp.deterministic_proof {
        return decision(Verdict::Reject, ReasonCode::zero_guess(), None);
    }
    let ram_after = inp.live_ram_mb.saturating_add(prop.estimated_ram_mb);
    let vram_after = inp.live_vram_mb.saturating_add(prop.estimated_vram_mb);
    let params_after = inp.loaded_params_mb.saturating_add(prop.estimated_params_mb);
    if ram_after > inp.budget.max_ram_mb || vram_after > inp.budget.max_vram_mb
        || params_after > inp.budget.max_loaded_params_mb
        || inp.live_context_tokens > inp.budget.max_live_context_tokens
        || inp.hot_atoms > inp.budget.max_hot_atoms
    {
        return decision(Verdict::Reject, ReasonCode::resource_violation(), None);
    }
    if prop.score_q16 >= inp.err.ok_min_q16 && prop.risk_q16 <= inp.err.max_risk_q16 {
        return decision(Verdict::Commit, ReasonCode::none(), None);
    }
    if prop.score_q16 <= inp.err.reject_max_q16 {
        return decision(Verdict::Reject, ReasonCode::silicon_not_ok(), None);
    }
    let action = "ask_human_witness".to_string();
    proof {
        reveal_strlit("ask_human_witness");
    }
    decision(Verdict::GhostQuestion, ReasonCode::silicon_doubt(), Some(action))
}

/// No guessing without evidence: missing intent or minimum evidence never commits; it
/// asks one question while questions remain, and rejects once they are spent.
pub proof fn law_no_guess_without_evidence(inp: GateInputs, prop: ProposalEnvelope)
    requires
        !has_evidence(inp),
    ensures
        gate_verdict(inp, prop) != Verdict::Commit,
        gate_verdict(inp, prop) == Verdict::GhostQuestion <==> may_ask(inp),
        gate_reason(inp, prop) == 0x01,
{
}

/// A commit needs anchored evidence, a deterministic proof in zero-guess domains, room in
/// every budget, and a score over the commit threshold within the risk limit; its reason is
/// none and it carries no next action.
pub proof fn law_commit_requirements(inp: GateInputs, prop: ProposalEnvelope)
    requires
        gate_verdict(inp, prop) == Verdict::Commit,
    ensures
        has_evidence(inp),
        inp.evidence_anchored,
        !zero_guess_violated(inp),
        !over_budget(inp, prop),
        score_commits(inp, prop),
        gate_reason(inp, prop) == 0,
        gate_next_action(inp, prop) is None,
{
}

/// Silicon doubt asks a human: with anchored evidence, no unproven zero-guess domain and room in
/// every budget, a proposal that does not commit (its score is under the commit threshold or its
/// risk over the limit) but scores above the reject threshold is a ghost question with reason
/// `0x10` and the next action `ask_human_witness`, whatever its risk.
pub proof fn law_doubtful_score_asks_a_human(inp: GateInputs, prop: ProposalEnvelope)
    requires
        inp.has_intent,
        inp.has_minimum_evidence,
        inp.evidence_anchored,
        !(text_listed(inp.err.zero_guess_domains@, inp.domain@) && !inp.deterministic_proof),
        !over_budget(inp, prop),
        !(prop.score_q16 >= inp.err.ok_min_q16 && prop.risk_q16 <= inp.err.max_risk_q16),
        prop.score_q16 > inp.err.reject_max_q16,
    ensures
        gate_verdict(inp, prop) == Verdict::GhostQuestion,
        gate_reason(inp, prop) == 0x10,
        gate_next_action(inp, prop) == Some("ask_human_witness"@),
{
}

/// Only a low score rejects on silicon grounds: a reject with reason `0x20` has anchored
/// evidence and a score at or under the reject threshold, so a high risk alone never rejects.
pub proof fn law_silicon_reject_needs_low_score(inp: GateInputs, prop: ProposalEnvelope)
    requires
        gate_reason(inp, prop) == 0x20,
    ensures
        gate_verdict(inp, prop) == Verdict::Reject,
        inp.has_intent && inp.has_minimum_evidence && inp.evidence_anchored,
        prop.score_q16 <= inp.err.reject_max_q16,
        !(prop.score_q16 >= inp.err.ok_min_q16 && prop.risk_q16 <= inp.err.max_risk_q16),
{
}

/// Missing evidence asks to retrieve the hypothesis while questions remain, and names no
/// next action once they are spent.
pub proof fn law_missing_evidence_retrieves_hypothesis(inp: GateInputs, prop: ProposalEnvelope)
    requires
        !inp.has_intent || !inp.has_minimum_evidence,
    ensures
        inp.questions_used < inp.err.max_questions_per_case && inp.ghosts_used_in_epoch < inp.err.max_ghosts_per_epoch
            ==> gate_verdict(inp, prop) == Verdict::GhostQuestion && gate_next_action(inp, prop) == Some(
            "retrieve:"@ + prop.hypothesis_cid@,
        ),
        !(inp.questions_used < inp.err.max_questions_per_case && inp.ghosts_used_in_epoch < inp.err.max_ghosts_per_epoch)
            ==> gate_verdict(inp, prop) == Verdict::Reject && gate_next_action(inp, prop) is None,
        gate_reason(inp, prop) == 0x01,
{
}

/// With intent and minimum evidence, the checks come in a fixed order: unanchored evidence
/// rejects with `0x02`; then an unproven zero-guess domain rejects with `0x08`; then a proposal
/// that would take some resource past its budget (ram, vram, loaded parameters, live context,
/// hot atoms; sums saturate, so a budget at the largest `u32` is never exceeded) rejects with
/// `0x04`; otherwise the proposal commits, with reason `0`, exactly when
/// its score reaches the commit threshold and its risk stays within the limit.
pub proof fn law_checks_in_order(inp: GateInputs, prop: ProposalEnvelope)
    requires
        inp.has_intent,
        inp.has_minimum_evidence,
    ensures
        !inp.evidence_anchored ==> gate_verdict(inp, prop) == Verdict::Reject && gate_reason(inp, prop) == 0x02,
        inp.evidence_anchored && text_listed(inp.err.zero_guess_domains@, inp.domain@) && !inp.deterministic_proof
            ==> gate_verdict(inp, prop) == Verdict::Reject && gate_reason(inp, prop) == 0x08,
        ({
            let room = (inp.live_ram_mb + prop.estimated_ram_mb <= inp.budget.max_ram_mb || inp.budget.max_ram_mb
                == u32::MAX) && (inp.live_vram_mb + prop.estimated_vram_mb <= inp.budget.max_vram_mb
                || inp.budget.max_vram_mb == u32::MAX) && (inp.loaded_params_mb + prop.estimated_params_mb
                <= inp.budget.max_loaded_params_mb || inp.budget.max_loaded_params_mb == u32::MAX)
                && inp.live_context_tokens <= inp.budget.max_live_context_tokens && inp.hot_atoms
                <= inp.budget.max_hot_atoms;
            let checked = inp.evidence_anchored && !(text_listed(inp.err.zero_guess_domains@, inp.domain@)
                && !inp.deterministic_proof);
            &&& checked && !room ==> gate_verdict(inp, prop) == Verdict::Reject && gate_reason(inp, prop) == 0x04
            &&& checked && room ==> (gate_verdict(inp, prop) == Verdict::Commit <==> prop.score_q16 >= inp.err.ok_min_q16
                && prop.risk_q16 <= inp.err.max_risk_q16)
            &&& checked && room && prop.score_q16 >= inp.err.ok_min_q16 && prop.risk_q16 <= inp.err.max_risk_q16
                ==> gate_reason(inp, prop) == 0 && gate_next_action(inp, prop) is None
        }),
        gate_verdict(inp, prop) != Verdict::GhostQuestion ==> gate_next_action(inp, prop) is None,
{
}

/// A ghost always names exactly one next action; a commit or a reject names none.
pub proof fn law_ghost_has_one_question(inp: GateInputs, prop: ProposalEnvelope)
    ensures
        gate_verdict(inp, prop) == Verdict::GhostQuestion <==> gate_next_action(inp, prop) is Some,
{
}

} // verus!
