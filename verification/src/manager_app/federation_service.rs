//! Two nodes over one case: node-a announces the case's pointer, node-b validates it, and a
//! competing head from node-c shows up as an explicit fork.

use vstd::prelude::*;

use crate::federation::{
    pointer_verdict, verdict_label, AcceptRejectReason, AcceptanceReceipt, AcceptanceVerdict, BasicPointerValidator,
    FederationView, PointerAnnouncement, PointerClass, PointerFork, PointerPolicy, PointerValidator,
};
use crate::ids::{Cid, NodeId, PointerAlias, ProofPackCid, Signature};
use crate::keyed_map::KeyedMap;
use crate::manager::case_alias;
use crate::manager_app::app_state::{
    lines_of, push_timeline, runs_unchanged_but_timeline, texts, witnesses_unchanged, AppState, CaseStatus,
};
use crate::session::ProofPack;
use crate::storage::StatePointer;
use crate::transcript::cid_texts;

verus! {

/// The federation operations of the application.
pub struct FederationService;

/// The head every case pointer starts from.
pub open spec fn bootstrap_head() -> Seq<char> {
    "cid:head:bootstrap"@
}

/// The competing head node-c announces for a case.
pub open spec fn fork_head(case_id: Seq<char>) -> Seq<char> {
    "cid:fork:"@ + case_id
}

/// The federation as node-b sees it for a proof pack: the document contract, that proof pack,
/// and one policy for `cases:` pointers, held by node-a and node-c, without forks, with proofs.
pub open spec fn document_federation(fed: FederationView, ppc: ProofPackCid) -> bool {
    &&& fed.recognized_nodes@.len() == 0
    &&& fed.accepted_contract_hashes@.len() == 1
    &&& fed.accepted_contract_hashes@[0]@ == "contract:document-intake:v7"@
    &&& fed.accepted_proof_packs@ == seq![ppc]
    &&& fed.pointer_policies@.len() == 1
    &&& fed.pointer_policies@[0].alias_prefix@ == "cases:"@
    &&& fed.pointer_policies@[0].class == PointerClass::SharedCase
    &&& fed.pointer_policies@[0].accepted_authorities@.len() == 2
    &&& fed.pointer_policies@[0].accepted_authorities@[0]@ == "node-a"@
    &&& fed.pointer_policies@[0].accepted_authorities@[1]@ == "node-c"@
    &&& !fed.pointer_policies@[0].requires_quorum
    &&& fed.pointer_policies@[0].quorum_size == 0
    &&& !fed.pointer_policies@[0].allow_forks
    &&& fed.pointer_policies@[0].require_proof_pack
    &&& fed.acceptance_receipts@.len() == 0
}

/// The pointer has the given fields.
pub open spec fn pointer_is(
    p: StatePointer,
    alias: Seq<char>,
    prev: Option<Seq<char>>,
    head: Seq<char>,
    seq: u64,
    authority: Seq<char>,
    signature: Seq<char>,
) -> bool {
    &&& p.alias@ == alias
    &&& match prev {
        Some(h) => p.prev_head_cid matches Some(c) && c@ == h,
        None => p.prev_head_cid is None,
    }
    &&& p.head_cid@ == head
    &&& p.sequence_number == seq
    &&& p.authority_id@ == authority
    &&& p.authority_signature@ == signature
}

/// The pointer node-a announces for a case's proof pack: second in sequence after the bootstrap head.
pub open spec fn candidate_pointer(p: StatePointer, case_id: Seq<char>, ppc: Seq<char>) -> bool {
    pointer_is(p, case_alias(case_id), Some(bootstrap_head()), ppc, 2, "node-a"@, "sig:node-a:next"@)
}

/// The competing pointer node-c announces at the same sequence number.
pub open spec fn competing_pointer(p: StatePointer, case_id: Seq<char>) -> bool {
    pointer_is(p, case_alias(case_id), Some(bootstrap_head()), fork_head(case_id), 2, "node-c"@, "sig:node-c:competing"@)
}

/// What node-b concludes on the competing pointer: a fork when the heads differ, else a sequence gap.
pub open spec fn fork_verdict(case_id: Seq<char>, ppc: Seq<char>) -> AcceptanceVerdict {
    if ppc != fork_head(case_id) {
        AcceptanceVerdict::ForkDetected
    } else {
        AcceptanceVerdict::Rejected(AcceptRejectReason::SequenceGap)
    }
}

/// Nothing of the application state changed.
pub open spec fn state_unchanged(a: AppState, b: AppState) -> bool {
    &&& b.manager.cases@ == a.manager.cases@
    &&& b.manager.inbox@ == a.manager.inbox@
    &&& b.statuses@ == a.statuses@
    &&& b.case_timeline@ == a.case_timeline@
    &&& runs_unchanged_but_timeline(a, b)
    &&& witnesses_unchanged(a, b)
    &&& crate::manager_app::app_state::federation_unchanged(a, b)
}

fn text_of(prefix: &str, middle: &str, suffix: &str) -> (s: String)
    ensures
        s@ == prefix@ + middle@ + suffix@,
{
    prefix.to_string().concat(middle).concat(suffix)
}

fn make_pointer(
    case_id: &str,
    prev: Option<&str>,
    head: &str,
    seq: u64,
    authority: &str,
    signature: &str,
) -> (p: StatePointer)
    ensures
        pointer_is(
            p,
            case_alias(case_id@),
            match prev {
                Some(h) => Some(h@),
                None => None,
            },
            head@,
            seq,
            authority@,
            signature@,
        ),
{
    StatePointer {
        alias: PointerAlias::from_string(crate::manager::case_alias_text(case_id)),
        prev_head_cid: match prev {
            Some(h) => Some(Cid::new(h)),
            None => None,
        },
        head_cid: Cid::new(head),
        sequence_number: seq,
        authority_id: NodeId::new(authority),
        authority_signature: Signature::new(signature),
    }
}

proof fn lemma_case_alias_has_prefix(case_id: Seq<char>)
    ensures
        crate::federation::policy_search(seq![], case_id, 0) is None,
        crate::text::is_prefix_of("cases:"@, case_alias(case_id)),
{
    assert(case_alias(case_id).subrange(0, ("cases:"@).len() as int) =~= "cases:"@);
}

impl FederationService {
    fn default_federation_view(proof_pack_cid: &ProofPackCid) -> (fed: FederationView)
        ensures
            document_federation(fed, *proof_pack_cid),
    {
        let mut authorities: Vec<NodeId> = Vec::new();
        authorities.push(NodeId::new("node-a"));
        authorities.push(NodeId::new("node-c"));
        let mut policies: Vec<PointerPolicy> = Vec::new();
        policies.push(
            PointerPolicy {
                alias_prefix: "cases:".to_string(),
                class: PointerClass::SharedCase,
                accepted_authorities: authorities,
                requires_quorum: false,
                quorum_size: 0,
                allow_forks: false,
                require_proof_pack: true,
            },
        );
        let mut contracts: Vec<crate::ids::Hash> = Vec::new();
        contracts.push(crate::ids::Hash::new("contract:document-intake:v7"));
        let mut packs: Vec<ProofPackCid> = Vec::new();
        packs.push(proof_pack_cid.clone());
        assert(packs@ =~= seq![*proof_pack_cid]);
        FederationView {
            recognized_nodes: Vec::new(),
            accepted_contract_hashes: contracts,
            accepted_proof_packs: packs,
            pointer_policies: policies,
            acceptance_receipts: Vec::new(),
        }
    }

    /// Node-a announces the case's pointer to its proof pack, node-b validates it against the
    /// document federation; both records, two log lines and two timeline lines are kept, and an
    /// accepted pointer marks the case federated.
    pub fn announce_and_validate(state: &mut AppState, case_id: &str) -> (r: Result<AcceptanceVerdict, String>)
        ensures
            !old(state).proofs@.contains_key(case_id@) ==> (r matches Err(e) && e@ == "missing proof for "@ + case_id@)
                && state_unchanged(*old(state), *final(state)),
            old(state).proofs@.contains_key(case_id@) ==> ({
                let p = old(state).proofs@[case_id@];
                let ppc = p.proof_pack_cid@;
                let n = old(state).pointer_announcements@.len();
                let m = old(state).acceptance_receipts@.len();
                let a = final(state).pointer_announcements@[n as int];
                let rec = final(state).acceptance_receipts@[m as int];
                &&& r == Ok::<AcceptanceVerdict, String>(AcceptanceVerdict::Accepted)
                &&& final(state).pointer_announcements@ == old(state).pointer_announcements@.push(a)
                &&& candidate_pointer(a.pointer, case_id@, ppc)
                &&& a.proof_pack_cid == p.proof_pack_cid
                &&& a.contract_hash == p.contract_hash
                &&& a.announcer_node_id@ == "node-a"@
                &&& a.announcement_signature@ == "sig:announcement:node-a"@
                &&& final(state).acceptance_receipts@ == old(state).acceptance_receipts@.push(rec)
                &&& rec.pointer_alias@ == case_alias(case_id@)
                &&& rec.head_cid@ == ppc
                &&& rec.verifier_node_id@ == "node-b"@
                &&& rec.verdict == AcceptanceVerdict::Accepted
                &&& rec.verifier_signature@ == "sig:acceptance:node-b"@
                &&& texts(final(state).federation_log@) == texts(old(state).federation_log@).push(
                    "node-a announced case="@ + case_id@ + " head="@ + ppc + " proof_pack="@ + ppc,
                ).push("node-b validated case="@ + case_id@ + " head="@ + ppc + " verdict="@ + "Accepted"@)
                &&& final(state).case_timeline@ == old(state).case_timeline@.insert(
                    case_id@,
                    final(state).case_timeline@[case_id@],
                )
                &&& texts(final(state).case_timeline@[case_id@]@) == lines_of(old(state).case_timeline@, case_id@).push(
                    "federation action=announce node=node-a head="@ + ppc + " proof_pack="@ + ppc,
                ).push("federation action=validate-pointer node=node-b head="@ + ppc + " verdict="@ + "Accepted"@)
                &&& final(state).statuses@ == old(state).statuses@.insert(case_id@, CaseStatus::Federated)
                &&& final(state).fork_registry@ == old(state).fork_registry@
                &&& final(state).replay_log@ == old(state).replay_log@
                &&& final(state).manager.cases@ == old(state).manager.cases@
                &&& final(state).manager.inbox@ == old(state).manager.inbox@
                &&& runs_unchanged_but_timeline(*old(state), *final(state))
                &&& witnesses_unchanged(*old(state), *final(state))
            }),
    {
        let proof = match state.proofs.get(case_id) {
            Some(p) => p,
            None => {
                return Err("missing proof for ".to_string().concat(case_id));
            },
        };
        let ppc = proof.proof_pack_cid.clone();
        let contract_hash = proof.contract_hash.clone();
        let previous = make_pointer(case_id, None, "cid:head:bootstrap", 1, "node-a", "sig:node-a");
        let candidate = make_pointer(
            case_id,
            Some("cid:head:bootstrap"),
            ppc.as_str(),
            2,
            "node-a",
            "sig:node-a:next",
        );
        let federation = Self::default_federation_view(&ppc);
        let validator = BasicPointerValidator;
        let verdict = validator.validate_pointer(&candidate, Some(&previous), Some(&ppc), &federation);
        proof {
            lemma_case_alias_has_prefix(case_id@);
            assert(crate::federation::policy_search(federation.pointer_policies@, candidate.alias@, 0) == Some(0int));
            assert(crate::federation::node_listed(
                federation.pointer_policies@[0].accepted_authorities@,
                candidate.authority_id@,
            ));
            assert(federation.accepted_proof_packs@[0]@ == ppc@);
            assert(crate::federation::proof_listed(federation.accepted_proof_packs@, ppc@));
            assert(verdict == AcceptanceVerdict::Accepted);
        }
        let head_text = candidate.head_cid.to_text();
        let announcement = PointerAnnouncement {
            pointer: candidate,
            proof_pack_cid: ppc.clone(),
            contract_hash,
            announcer_node_id: NodeId::new("node-a"),
            announcement_signature: Signature::new("sig:announcement:node-a"),
        };
        state.pointer_announcements.push(announcement);
        let receipt = AcceptanceReceipt {
            pointer_alias: PointerAlias::from_string(crate::manager::case_alias_text(case_id)),
            head_cid: Cid::new(head_text.as_str()),
            verifier_node_id: NodeId::new("node-b"),
            verdict,
            verifier_signature: Signature::new("sig:acceptance:node-b"),
        };
        state.acceptance_receipts.push(receipt);
        let ghost log0 = state.federation_log@;
        let verdict_text = verdict.label();
        state.federation_log.push(
            text_of("node-a announced case=", case_id, " head=").concat(head_text.as_str()).concat(" proof_pack=").concat(
                ppc.as_str(),
            ),
        );
        state.federation_log.push(
            text_of("node-b validated case=", case_id, " head=").concat(head_text.as_str()).concat(" verdict=").concat(
                verdict_text.as_str(),
            ),
        );
        proof {
            reveal_strlit("Accepted");
            assert(texts(state.federation_log@) =~= texts(log0).push(state.federation_log@[log0.len() as int]@).push(
                state.federation_log@[log0.len() as int + 1]@,
            ));
        }
        let ghost timeline0 = state.case_timeline@;
        push_timeline(
            &mut state.case_timeline,
            case_id,
            "federation action=announce node=node-a head=".to_string().concat(head_text.as_str()).concat(
                " proof_pack=",
            ).concat(ppc.as_str()),
        );
        push_timeline(
            &mut state.case_timeline,
            case_id,
            "federation action=validate-pointer node=node-b head=".to_string().concat(head_text.as_str()).concat(
                " verdict=",
            ).concat(verdict_text.as_str()),
        );
        proof {
            assert(state.case_timeline@ =~= timeline0.insert(case_id@, state.case_timeline@[case_id@]));
        }
        if verdict == AcceptanceVerdict::Accepted {
            state.statuses.insert(case_id.to_string(), CaseStatus::Federated);
        }
        Ok(verdict)
    }

    /// Node-c announces a competing head for the case's pointer at the same sequence number;
    /// node-b's verdict is recorded, and a detected fork is registered with both heads and
    /// marks the case forked.
    pub fn simulate_fork(state: &mut AppState, case_id: &str) -> (r: Result<AcceptanceVerdict, String>)
        ensures
            !old(state).proofs@.contains_key(case_id@) ==> (r matches Err(e) && e@ == "missing proof for "@ + case_id@)
                && state_unchanged(*old(state), *final(state)),
            old(state).proofs@.contains_key(case_id@) ==> ({
                let p = old(state).proofs@[case_id@];
                let ppc = p.proof_pack_cid@;
                let v = fork_verdict(case_id@, ppc);
                let n = old(state).pointer_announcements@.len();
                let m = old(state).acceptance_receipts@.len();
                let a = final(state).pointer_announcements@[n as int];
                let rec = final(state).acceptance_receipts@[m as int];
                &&& r == Ok::<AcceptanceVerdict, String>(v)
                &&& final(state).pointer_announcements@ == old(state).pointer_announcements@.push(a)
                &&& competing_pointer(a.pointer, case_id@)
                &&& a.proof_pack_cid == p.proof_pack_cid
                &&& a.contract_hash == p.contract_hash
                &&& a.announcer_node_id@ == "node-c"@
                &&& a.announcement_signature@ == "sig:announcement:node-c"@
                &&& final(state).acceptance_receipts@ == old(state).acceptance_receipts@.push(rec)
                &&& rec.pointer_alias@ == case_alias(case_id@)
                &&& rec.head_cid@ == fork_head(case_id@)
                &&& rec.verifier_node_id@ == "node-b"@
                &&& rec.verdict == v
                &&& rec.verifier_signature@ == "sig:acceptance:node-b:fork"@
                &&& final(state).replay_log@ == old(state).replay_log@
                &&& final(state).manager.cases@ == old(state).manager.cases@
                &&& final(state).manager.inbox@ == old(state).manager.inbox@
                &&& runs_unchanged_but_timeline(*old(state), *final(state))
                &&& witnesses_unchanged(*old(state), *final(state))
                &&& if v == AcceptanceVerdict::ForkDetected {
                    let f = final(state).fork_registry@[old(state).fork_registry@.len() as int];
                    let heads = ppc + ","@ + fork_head(case_id@);
                    &&& final(state).fork_registry@ == old(state).fork_registry@.push(f)
                    &&& f.alias@ == case_alias(case_id@)
                    &&& f.base_head_cid matches Some(b) && b@ == bootstrap_head()
                    &&& cid_texts(f.competing_heads@) == seq![ppc, fork_head(case_id@)]
                    &&& f.detected_by@ == "node-b"@
                    &&& final(state).statuses@ == old(state).statuses@.insert(case_id@, CaseStatus::Forked)
                    &&& texts(final(state).federation_log@) == texts(old(state).federation_log@).push(
                        "node-b detected fork case="@ + case_id@ + " alias="@ + case_alias(case_id@) + " heads="@ + heads,
                    )
                    &&& final(state).case_timeline@ == old(state).case_timeline@.insert(
                        case_id@,
                        final(state).case_timeline@[case_id@],
                    )
                    &&& texts(final(state).case_timeline@[case_id@]@) == lines_of(old(state).case_timeline@, case_id@).push(
                        "federation action=fork-detected alias="@ + case_alias(case_id@) + " heads="@ + heads,
                    )
                } else {
                    &&& final(state).fork_registry@ == old(state).fork_registry@
                    &&& final(state).statuses@ == old(state).statuses@
                    &&& texts(final(state).federation_log@) == texts(old(state).federation_log@).push(
                        "node-b fork-simulation case="@ + case_id@ + " verdict="@ + verdict_label(v),
                    )
                    &&& final(state).case_timeline@ == old(state).case_timeline@
                }
            }),
    {
        let proof = match state.proofs.get(case_id) {
            Some(p) => p,
            None => {
                return Err("missing proof for ".to_string().concat(case_id));
            },
        };
        let ppc = proof.proof_pack_cid.clone();
        let contract_hash = proof.contract_hash.clone();
        let previous = make_pointer(
            case_id,
            Some("cid:head:bootstrap"),
            ppc.as_str(),
            2,
            "node-a",
            "sig:node-a:accepted",
        );
        let competing_head = text_of("cid:fork:", case_id, "");
        let competing = make_pointer(
            case_id,
            Some("cid:head:bootstrap"),
            competing_head.as_str(),
            2,
            "node-c",
            "sig:node-c:competing",
        );
        let federation = Self::default_federation_view(&ppc);
        let validator = BasicPointerValidator;
        let verdict = validator.validate_pointer(&competing, Some(&previous), Some(&ppc), &federation);
        proof {
            reveal_strlit("");
            assert(competing_head@ =~= fork_head(case_id@));
            lemma_case_alias_has_prefix(case_id@);
            assert(crate::federation::policy_search(federation.pointer_policies@, competing.alias@, 0) == Some(0int));
            assert(crate::federation::node_listed(
                federation.pointer_policies@[0].accepted_authorities@,
                competing.authority_id@,
            ));
            assert(federation.accepted_proof_packs@[0]@ == ppc@);
            assert(crate::federation::proof_listed(federation.accepted_proof_packs@, ppc@));
            if ppc@ == fork_head(case_id@) {
                reveal_strlit("cid:head:bootstrap");
                reveal_strlit("cid:fork:");
                assert(fork_head(case_id@)[4] == 'f');
                assert(bootstrap_head()[4] == 'h');
                assert(!crate::federation::extends(competing, previous));
            }
            assert(verdict == fork_verdict(case_id@, ppc@));
        }
        let announcement = PointerAnnouncement {
            pointer: competing,
            proof_pack_cid: ppc.clone(),
            contract_hash,
            announcer_node_id: NodeId::new("node-c"),
            announcement_signature: Signature::new("sig:announcement:node-c"),
        };
        state.pointer_announcements.push(announcement);
        let receipt = AcceptanceReceipt {
            pointer_alias: PointerAlias::from_string(crate::manager::case_alias_text(case_id)),
            head_cid: Cid::new(competing_head.as_str()),
            verifier_node_id: NodeId::new("node-b"),
            verdict,
            verifier_signature: Signature::new("sig:acceptance:node-b:fork"),
        };
        state.acceptance_receipts.push(receipt);
        let ghost log0 = state.federation_log@;
        if verdict == AcceptanceVerdict::ForkDetected {
            let alias_text = crate::manager::case_alias_text(case_id);
            let mut heads: Vec<Cid> = Vec::new();
            heads.push(Cid::new(ppc.as_str()));
            heads.push(Cid::new(competing_head.as_str()));
            assert(cid_texts(heads@) =~= seq![ppc@, fork_head(case_id@)]);
            let heads_text = ppc.to_text().concat(",").concat(competing_head.as_str());
            let fork = PointerFork {
                alias: PointerAlias::from_string(crate::manager::case_alias_text(case_id)),
                base_head_cid: Some(Cid::new("cid:head:bootstrap")),
                competing_heads: heads,
                detected_by: NodeId::new("node-b"),
            };
            state.fork_registry.push(fork);
            state.statuses.insert(case_id.to_string(), CaseStatus::Forked);
            state.federation_log.push(
                text_of("node-b detected fork case=", case_id, " alias=").concat(alias_text.as_str()).concat(
                    " heads=",
                ).concat(heads_text.as_str()),
            );
            proof {
                assert(texts(state.federation_log@) =~= texts(log0).push(state.federation_log@[log0.len() as int]@));
            }
            push_timeline(
                &mut state.case_timeline,
                case_id,
                "federation action=fork-detected alias=".to_string().concat(alias_text.as_str()).concat(
                    " heads=",
                ).concat(heads_text.as_str()),
            );
        } else {
            let verdict_text = verdict.label();
            state.federation_log.push(
                text_of("node-b fork-simulation case=", case_id, " verdict=").concat(verdict_text.as_str()),
            );
            proof {
                assert(texts(state.federation_log@) =~= texts(log0).push(state.federation_log@[log0.len() as int]@));
            }
        }
        Ok(verdict)
    }
}

} // verus!
