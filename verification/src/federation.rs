//! Federation: nodes exchange signed pointers over proofs; forks are explicit.

use vstd::prelude::*;

use crate::ids::{Cid, NodeId, PointerAlias, ProofPackCid, Signature};
use crate::storage::StatePointer;
use crate::text::{is_prefix_of, starts_with};

verus! {

/// Why a pointer was not accepted.
#[derive(Debug, Clone, Copy, PartialEq, Eq, Structural)]
pub enum AcceptRejectReason {
    MissingDependencies,
    InvalidSignature,
    InvalidProof,
    InvalidContract,
    AuthorityViolation,
    RewindAttempt,
    SequenceGap,
    PolicyViolation,
}

/// What a node concludes about an announced pointer.
#[derive(Debug, Clone, Copy, PartialEq, Eq, Structural)]
pub enum AcceptanceVerdict {
    Accepted,
    Rejected(AcceptRejectReason),
    ForkDetected,
    Deferred,
}

/// The signed record of a node's verdict on a pointer.
#[derive(Debug, Clone)]
pub struct AcceptanceReceipt {
    pub pointer_alias: PointerAlias,
    pub head_cid: Cid,
    pub verifier_node_id: NodeId,
    pub verdict: AcceptanceVerdict,
    pub verifier_signature: Signature,
}

/// A node announces that a pointer moved, with the proof pack behind it.
#[derive(Debug, Clone)]
pub struct PointerAnnouncement {
    pub pointer: StatePointer,
    pub proof_pack_cid: ProofPackCid,
    pub contract_hash: crate::ids::Hash,
    pub announcer_node_id: NodeId,
    pub announcement_signature: Signature,
}

/// A node publishes a contract.
#[derive(Debug, Clone)]
pub struct ContractAnnouncement {
    pub contract_hash: crate::ids::Hash,
    pub contract_cid: Cid,
    pub publisher_id: NodeId,
    pub publisher_signature: Signature,
}

/// Competing heads of one pointer, made explicit.
#[derive(Debug, Clone)]
pub struct PointerFork {
    pub alias: PointerAlias,
    pub base_head_cid: Option<Cid>,
    pub competing_heads: Vec<Cid>,
    pub detected_by: NodeId,
}

/// A node of the federation and its roles.
#[derive(Debug, Clone)]
pub struct NodeIdentity {
    pub node_id: NodeId,
    pub public_key: crate::ids::Hash,
    pub roles: Vec<NodeRole>,
}

/// The roles a node can hold.
#[derive(Debug, Clone, Copy, PartialEq, Eq, Structural)]
pub enum NodeRole {
    EdgeExecutor,
    PointerAuthority,
    WitnessAuthority,
    ContractPublisher,
    Mirror,
}

/// The classes of pointers.
#[derive(Debug, Clone, Copy, PartialEq, Eq, Structural)]
pub enum PointerClass {
    Personal,
    SharedCase,
    ContractHead,
    WitnessLog,
    MirrorIndex,
}

/// The rules for pointers whose alias starts with a prefix.
#[derive(Debug, Clone)]
pub struct PointerPolicy {
    pub alias_prefix: String,
    pub class: PointerClass,
    pub accepted_authorities: Vec<NodeId>,
    pub requires_quorum: bool,
    pub quorum_size: u32,
    pub allow_forks: bool,
    pub require_proof_pack: bool,
}

/// What a node knows of the federation.
#[derive(Debug, Clone)]
pub struct FederationView {
    pub recognized_nodes: Vec<NodeIdentity>,
    pub accepted_contract_hashes: Vec<crate::ids::Hash>,
    pub accepted_proof_packs: Vec<ProofPackCid>,
    pub pointer_policies: Vec<PointerPolicy>,
    pub acceptance_receipts: Vec<AcceptanceReceipt>,
}

impl Default for FederationView {
    fn default() -> (v: Self)
        ensures
            v.recognized_nodes@.len() == 0,
            v.accepted_contract_hashes@.len() == 0,
            v.accepted_proof_packs@.len() == 0,
            v.pointer_policies@.len() == 0,
            v.acceptance_receipts@.len() == 0,
    {
        FederationView {
            recognized_nodes: Vec::new(),
            accepted_contract_hashes: Vec::new(),
            accepted_proof_packs: Vec::new(),
            pointer_policies: Vec::new(),
            acceptance_receipts: Vec::new(),
        }
    }
}

/// The first policy, from position `i` on, whose prefix starts the alias.
pub open spec fn policy_search(policies: Seq<PointerPolicy>, alias: Seq<char>, i: int) -> Option<int>
    decreases policies.len() - i,
{
    if i < 0 || i >= policies.len() {
        None
    } else if is_prefix_of(policies[i].alias_prefix@, alias) {
        Some(i)
    } else {
        policy_search(policies, alias, i + 1)
    }
}

/// The node is one of the listed ones.
pub open spec fn node_listed(nodes: Seq<NodeId>, node: Seq<char>) -> bool {
    exists|i: int| 0 <= i < nodes.len() && nodes[i]@ == node
}

/// The proof pack is one of the listed ones.
pub open spec fn proof_listed(packs: Seq<ProofPackCid>, pack: Seq<char>) -> bool {
    exists|i: int| 0 <= i < packs.len() && packs[i]@ == pack
}

/// The new pointer names the previous head as its predecessor.
pub open spec fn extends(new_pointer: StatePointer, previous: StatePointer) -> bool {
    new_pointer.prev_head_cid matches Some(p) && p@ == previous.head_cid@
}

/// The proof pack requirement of the policy is met.
pub open spec fn proof_ok(policy: PointerPolicy, proof: Option<ProofPackCid>, fed: FederationView) -> bool {
    policy.require_proof_pack ==> (proof matches Some(p) && proof_listed(fed.accepted_proof_packs@, p@))
}

/// The verdict on a new pointer, given the previous one and the proof pack behind it.
pub open spec fn pointer_verdict(
    new_pointer: StatePointer,
    previous: Option<StatePointer>,
    proof: Option<ProofPackCid>,
    fed: FederationView,
) -> AcceptanceVerdict {
    match policy_search(fed.pointer_policies@, new_pointer.alias@, 0) {
        None => AcceptanceVerdict::Rejected(AcceptRejectReason::PolicyViolation),
        Some(i) => {
            let policy = fed.pointer_policies@[i];
            if !node_listed(policy.accepted_authorities@, new_pointer.authority_id@) {
                AcceptanceVerdict::Rejected(AcceptRejectReason::AuthorityViolation)
            } else if !proof_ok(policy, proof, fed) {
                AcceptanceVerdict::Rejected(AcceptRejectReason::InvalidProof)
            } else {
                match previous {
                    None => AcceptanceVerdict::Accepted,
                    Some(prev) => {
                        if new_pointer.sequence_number < prev.sequence_number {
                            AcceptanceVerdict::Rejected(AcceptRejectReason::RewindAttempt)
                        } else if new_pointer.sequence_number == prev.sequence_number
                            && new_pointer.head_cid@ != prev.head_cid@ {
                            AcceptanceVerdict::ForkDetected
                        } else if !extends(new_pointer, prev) {
                            if policy.allow_forks {
                                AcceptanceVerdict::ForkDetected
                            } else {
                                AcceptanceVerdict::Rejected(AcceptRejectReason::SequenceGap)
                            }
                        } else {
                            AcceptanceVerdict::Accepted
                        }
                    },
                }
            }
        },
    }
}

/// Checks announced pointers against the federation's policies.
pub trait PointerValidator {
    fn validate_pointer(
        &self,
        new_pointer: &StatePointer,
        previous: Option<&StatePointer>,
        proof_pack_cid: Option<&ProofPackCid>,
        fed: &FederationView,
    ) -> AcceptanceVerdict;
}

/// The validator of the policies as written.
#[derive(Debug, Default, Clone, Copy)]
pub struct BasicPointerValidator;

fn find_policy(policies: &Vec<PointerPolicy>, alias: &str) -> (r: Option<usize>)
    ensures
        r matches Some(i) ==> i < policies@.len() && policy_search(policies@, alias@, 0) == Some(i as int),
        r is None ==> policy_search(policies@, alias@, 0) is None,
{
    let mut i: usize = 0;
    while i < policies.len()
        invariant
            i <= policies@.len(),
            policy_search(policies@, alias@, 0) == policy_search(policies@, alias@, i as int),
        decreases policies.len() - i,
    {
        if starts_with(alias, policies[i].alias_prefix.as_str()) {
            return Some(i);
        }
        i += 1;
    }
    None
}

fn node_in(nodes: &Vec<NodeId>, node: &NodeId) -> (b: bool)
    ensures
        b == node_listed(nodes@, node@),
{
    let mut i: usize = 0;
    while i < nodes.len()
        invariant
            i <= nodes@.len(),
            forall|j: int| 0 <= j < i ==> nodes@[j]@ != node@,
        decreases nodes.len() - i,
    {
        if nodes[i].same(node) {
            return true;
        }
        i += 1;
    }
    false
}

fn proof_in(packs: &Vec<ProofPackCid>, pack: &ProofPackCid) -> (b: bool)
    ensures
        b == proof_listed(packs@, pack@),
{
    let mut i: usize = 0;
    while i < packs.len()
        invariant
            i <= packs@.len(),
            forall|j: int| 0 <= j < i ==> packs@[j]@ != pack@,
        decreases packs.len() - i,
    {
        if packs[i].same(pack) {
            return true;
        }
        i += 1;
    }
    false
}

/// The optional reference as an optional value.
pub open spec fn deref_opt<T>(o: Option<&T>) -> Option<T> {
    match o {
        Some(x) => Some(*x),
        None => None,
    }
}

impl PointerValidator for BasicPointerValidator {
    /// The first matching policy decides: its authorities, its proof pack rule, then the
    /// pointer's sequence against the previous pointer.
    fn validate_pointer(
        &self,
        new_pointer: &StatePointer,
        previous: Option<&StatePointer>,
        proof_pack_cid: Option<&ProofPackCid>,
        fed: &FederationView,
    ) -> (v: AcceptanceVerdict)
        ensures
            v == pointer_verdict(*new_pointer, deref_opt(previous), deref_opt(proof_pack_cid), *fed),
    {
        let idx = match find_policy(&fed.pointer_policies, new_pointer.alias.as_str()) {
            Some(i) => i,
            None => {
                return AcceptanceVerdict::Rejected(AcceptRejectReason::PolicyViolation);
            },
        };
        let policy = &fed.pointer_policies[idx];
        assert(policy_search(fed.pointer_policies@, new_pointer.alias@, 0) == Some(idx as int));
        assert(*policy == fed.pointer_policies@[idx as int]);
        if !node_in(&policy.accepted_authorities, &new_pointer.authority_id) {
            return AcceptanceVerdict::Rejected(AcceptRejectReason::AuthorityViolation);
        }
        if policy.require_proof_pack {
            match proof_pack_cid {
                None => {
                    return AcceptanceVerdict::Rejected(AcceptRejectReason::InvalidProof);
                },
                Some(proof_cid) => {
                    if !proof_in(&fed.accepted_proof_packs, proof_cid) {
                        return AcceptanceVerdict::Rejected(AcceptRejectReason::InvalidProof);
                    }
                },
            }
        }
        match previous {
            Some(prev) => {
                if new_pointer.sequence_number < prev.sequence_number {
                    return AcceptanceVerdict::Rejected(AcceptRejectReason::RewindAttempt);
                }
                if new_pointer.sequence_number == prev.sequence_number && !new_pointer.head_cid.same(&prev.head_cid) {
                    return AcceptanceVerdict::ForkDetected;
                }
                let linked = match &new_pointer.prev_head_cid {
                    Some(p) => p.same(&prev.head_cid),
                    None => false,
                };
                if !linked {
                    if policy.allow_forks {
                        return AcceptanceVerdict::ForkDetected;
                    }
                    return AcceptanceVerdict::Rejected(AcceptRejectReason::SequenceGap);
                }
            },
            None => {},
        }
        AcceptanceVerdict::Accepted
    }
}

impl AcceptRejectReason {
    /// The name of the reason.
    pub fn label(&self) -> (s: &'static str)
        ensures
            s@ == reason_label(*self),
    {
        match self {
            AcceptRejectReason::MissingDependencies => "MissingDependencies",
            AcceptRejectReason::InvalidSignature => "InvalidSignature",
            AcceptRejectReason::InvalidProof => "InvalidProof",
            AcceptRejectReason::InvalidContract => "InvalidContract",
            AcceptRejectReason::AuthorityViolation => "AuthorityViolation",
            AcceptRejectReason::RewindAttempt => "RewindAttempt",
            AcceptRejectReason::SequenceGap => "SequenceGap",
            AcceptRejectReason::PolicyViolation => "PolicyViolation",
        }
    }
}

/// The name of a reason.
pub open spec fn reason_label(r: AcceptRejectReason) -> Seq<char> {
    match r {
        AcceptRejectReason::MissingDependencies => "MissingDependencies"@,
        AcceptRejectReason::InvalidSignature => "InvalidSignature"@,
        AcceptRejectReason::InvalidProof => "InvalidProof"@,
        AcceptRejectReason::InvalidContract => "InvalidContract"@,
        AcceptRejectReason::AuthorityViolation => "AuthorityViolation"@,
        AcceptRejectReason::RewindAttempt => "RewindAttempt"@,
        AcceptRejectReason::SequenceGap => "SequenceGap"@,
        AcceptRejectReason::PolicyViolation => "PolicyViolation"@,
    }
}

/// The text of a verdict, as it is written in logs.
pub open spec fn verdict_label(v: AcceptanceVerdict) -> Seq<char> {
    match v {
        AcceptanceVerdict::Accepted => "Accepted"@,
        AcceptanceVerdict::Rejected(r) => "Rejected("@ + reason_label(r) + ")"@,
        AcceptanceVerdict::ForkDetected => "ForkDetected"@,
        AcceptanceVerdict::Deferred => "Deferred"@,
    }
}

impl AcceptanceVerdict {
    /// The text of the verdict, as it is written in logs.
    pub fn label(&self) -> (s: String)
        ensures
            s@ == verdict_label(*self),
    {
        match self {
            AcceptanceVerdict::Accepted => "Accepted".to_string(),
            AcceptanceVerdict::Rejected(r) => "Rejected(".to_string().concat(r.label()).concat(")"),
            AcceptanceVerdict::ForkDetected => "ForkDetected".to_string(),
            AcceptanceVerdict::Deferred => "Deferred".to_string(),
        }
    }
}

/// No silent overwrite: an accepted pointer falls under a policy whose prefix starts its alias, has an accepted authority, the proof pack
/// its policy asks for, and, when there was a previous pointer, it does not go back in sequence
/// and names the previous head as its predecessor.
pub proof fn law_accepted_pointer_extends_history(
    new_pointer: StatePointer,
    previous: Option<StatePointer>,
    proof: Option<ProofPackCid>,
    fed: FederationView,
)
    requires
        pointer_verdict(new_pointer, previous, proof, fed) == AcceptanceVerdict::Accepted,
    ensures
        policy_search(fed.pointer_policies@, new_pointer.alias@, 0) is Some,
        ({
            let i = policy_search(fed.pointer_policies@, new_pointer.alias@, 0)->0;
            &&& 0 <= i < fed.pointer_policies@.len()
            &&& is_prefix_of(fed.pointer_policies@[i].alias_prefix@, new_pointer.alias@)
            &&& node_listed(fed.pointer_policies@[i].accepted_authorities@, new_pointer.authority_id@)
            &&& proof_ok(fed.pointer_policies@[i], proof, fed)
        }),
        previous matches Some(prev) ==> new_pointer.sequence_number >= prev.sequence_number && extends(new_pointer, prev),
{
    lemma_policy_search_prefix(fed.pointer_policies@, new_pointer.alias@, 0);
}

/// Forks are explicit: a pointer at the sequence number of the previous one with another head
/// is never accepted.
pub proof fn law_competing_head_never_accepted(
    new_pointer: StatePointer,
    prev: StatePointer,
    proof: Option<ProofPackCid>,
    fed: FederationView,
)
    requires
        new_pointer.sequence_number == prev.sequence_number,
        new_pointer.head_cid@ != prev.head_cid@,
    ensures
        pointer_verdict(new_pointer, Some(prev), proof, fed) != AcceptanceVerdict::Accepted,
{
}

/// A pointer that goes back in sequence is never accepted.
pub proof fn law_rewind_never_accepted(
    new_pointer: StatePointer,
    prev: StatePointer,
    proof: Option<ProofPackCid>,
    fed: FederationView,
)
    requires
        new_pointer.sequence_number < prev.sequence_number,
    ensures
        pointer_verdict(new_pointer, Some(prev), proof, fed) != AcceptanceVerdict::Accepted,
{
}

/// A proof pack matters only where the policy asks for one: under a policy that does not
/// require a proof pack, the verdict is the same whichever proof pack, or none, is given.
pub proof fn law_unrequired_proof_pack_is_ignored(
    new_pointer: StatePointer,
    previous: Option<StatePointer>,
    proof_a: Option<ProofPackCid>,
    proof_b: Option<ProofPackCid>,
    fed: FederationView,
)
    requires
        policy_search(fed.pointer_policies@, new_pointer.alias@, 0) matches Some(i)
            && !fed.pointer_policies@[i].require_proof_pack,
    ensures
        pointer_verdict(new_pointer, previous, proof_a, fed) == pointer_verdict(new_pointer, previous, proof_b, fed),
{
}

/// A first pointer of an accepted authority is accepted when the policy asks for no proof
/// pack, with or without one; when it asks for one, a listed proof pack is enough.
pub proof fn law_first_pointer_of_authority_accepted(
    new_pointer: StatePointer,
    proof: Option<ProofPackCid>,
    fed: FederationView,
)
    requires
        policy_search(fed.pointer_policies@, new_pointer.alias@, 0) matches Some(i)
            && node_listed(fed.pointer_policies@[i].accepted_authorities@, new_pointer.authority_id@)
            && (fed.pointer_policies@[i].require_proof_pack ==> (proof matches Some(p)
            && exists|j: int| 0 <= j < fed.accepted_proof_packs@.len() && fed.accepted_proof_packs@[j]@ == p@)),
    ensures
        pointer_verdict(new_pointer, None, proof, fed) == AcceptanceVerdict::Accepted,
{
}

/// The verdict on a pointer under the first policy whose prefix starts its alias: no such
/// policy is a policy violation; an authority the policy does not list is an authority
/// violation; a missing or unlisted proof pack where the policy asks for one is an invalid
/// proof. Past those checks a first pointer is accepted, and a later one is judged against the
/// previous pointer: a lower sequence number is a rewind, the same number with another head is a
/// fork, a pointer that does not name the previous head is a fork where the policy allows forks
/// and a sequence gap where it does not, and otherwise the pointer is accepted.
pub proof fn law_pointer_verdict_cases(
    new_pointer: StatePointer,
    previous: Option<StatePointer>,
    proof: Option<ProofPackCid>,
    fed: FederationView,
)
    ensures
        policy_search(fed.pointer_policies@, new_pointer.alias@, 0) is None ==> pointer_verdict(new_pointer, previous, proof, fed)
            == AcceptanceVerdict::Rejected(AcceptRejectReason::PolicyViolation),
        policy_search(fed.pointer_policies@, new_pointer.alias@, 0) matches Some(i) ==> ({
            let policy = fed.pointer_policies@[i];
            let listed = exists|j: int|
                0 <= j < policy.accepted_authorities@.len() && policy.accepted_authorities@[j]@ == new_pointer.authority_id@;
            let proof_fine = !policy.require_proof_pack || (proof matches Some(p) && exists|j: int|
                0 <= j < fed.accepted_proof_packs@.len() && fed.accepted_proof_packs@[j]@ == p@);
            let v = pointer_verdict(new_pointer, previous, proof, fed);
            &&& !listed ==> v == AcceptanceVerdict::Rejected(AcceptRejectReason::AuthorityViolation)
            &&& listed && !proof_fine ==> v == AcceptanceVerdict::Rejected(AcceptRejectReason::InvalidProof)
            &&& listed && proof_fine && previous is None ==> v == AcceptanceVerdict::Accepted
            &&& (listed && proof_fine) ==> (previous matches Some(prev) ==> {
                let linked = new_pointer.prev_head_cid matches Some(h) && h@ == prev.head_cid@;
                &&& new_pointer.sequence_number < prev.sequence_number ==> v == AcceptanceVerdict::Rejected(
                    AcceptRejectReason::RewindAttempt,
                )
                &&& new_pointer.sequence_number == prev.sequence_number && new_pointer.head_cid@ != prev.head_cid@ ==> v
                    == AcceptanceVerdict::ForkDetected
                &&& new_pointer.sequence_number >= prev.sequence_number && !(new_pointer.sequence_number
                    == prev.sequence_number && new_pointer.head_cid@ != prev.head_cid@) && !linked ==> v == (if policy.allow_forks {
                    AcceptanceVerdict::ForkDetected
                } else {
                    AcceptanceVerdict::Rejected(AcceptRejectReason::SequenceGap)
                })
                &&& new_pointer.sequence_number >= prev.sequence_number && !(new_pointer.sequence_number
                    == prev.sequence_number && new_pointer.head_cid@ != prev.head_cid@) && linked ==> v
                    == AcceptanceVerdict::Accepted
            })
        }),
{
}

/// Policies are found by prefix: the search finds a policy whose prefix starts the alias.
pub proof fn lemma_policy_search_prefix(policies: Seq<PointerPolicy>, alias: Seq<char>, i: int)
    ensures
        policy_search(policies, alias, i) matches Some(j) ==> 0 <= j < policies.len() && is_prefix_of(policies[j].alias_prefix@, alias),
    decreases policies.len() - i,
{
    if 0 <= i < policies.len() && !is_prefix_of(policies[i].alias_prefix@, alias) {
        lemma_policy_search_prefix(policies, alias, i + 1);
    }
}

} // verus!
