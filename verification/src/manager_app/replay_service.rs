//! Replay from ashes: wipe a case's hot state, re-run the case, and compare the new proof pack
//! with the recorded one field by field.

use vstd::prelude::*;

use crate::ids::{CaseId, Cid, ReceiptCid};
use crate::keyed_map::KeyedMap;
use crate::manager_app::app_state::{lines_of, push_timeline, texts, witnesses_unchanged, AppState};
use crate::manager_app::demo_domain::{document_proof, execute_document_case};
use crate::session::ProofPack;
use crate::storage::EpistemicHeat;
use crate::text::{decimal, decimal_text, join_texts, join_with, same_text};
use crate::transcript::{cid_texts, outcome_debug};

verus! {

/// One field on which a replay differs from the recorded proof pack.
#[derive(Debug, Clone)]
pub struct ReplayFieldDiff {
    pub field: String,
    pub original: String,
    pub replayed: String,
}

impl View for ReplayFieldDiff {
    type V = (Seq<char>, Seq<char>, Seq<char>);

    open spec fn view(&self) -> (Seq<char>, Seq<char>, Seq<char>) {
        (self.field@, self.original@, self.replayed@)
    }
}

/// What a replay found.
#[derive(Debug, Clone)]
pub struct ReplayReport {
    pub case_id: CaseId,
    pub matches: bool,
    pub diffs: Vec<ReplayFieldDiff>,
}

/// What a wipe removed.
#[derive(Debug, Clone)]
pub struct WipeReport {
    pub case_id: CaseId,
    pub wiped_hot_atoms: Vec<Cid>,
}

/// The replay operations of the application.
pub struct ReplayService;

/// The heat map with each of the cids that it tracks set to cold.
pub open spec fn cooled(m: Map<Seq<char>, EpistemicHeat>, cids: Seq<Seq<char>>) -> Map<Seq<char>, EpistemicHeat>
    decreases cids.len(),
{
    if cids.len() == 0 {
        m
    } else {
        let before = cooled(m, cids.drop_last());
        if before.contains_key(cids.last()) {
            before.insert(cids.last(), EpistemicHeat::Cold)
        } else {
            before
        }
    }
}

/// The list of wiped atoms as written in logs: `none`, or the cids joined by commas.
pub open spec fn atom_list(cids: Seq<Seq<char>>) -> Seq<char> {
    if cids.len() == 0 {
        "none"@
    } else {
        join_with(cids, ","@)
    }
}

/// The hot atoms a case had (none when it had no projection).
pub open spec fn hot_of(s: AppState, case_id: Seq<char>) -> Seq<Seq<char>> {
    if s.hot_atoms_by_case@.contains_key(case_id) {
        cid_texts(s.hot_atoms_by_case@[case_id]@)
    } else {
        seq![]
    }
}

/// The text of an optional final receipt: the cid, or `-`.
pub open spec fn receipt_or_dash(r: Option<ReceiptCid>) -> Seq<char> {
    match r {
        Some(c) => c@,
        None => "-"@,
    }
}

/// A diff line when the two texts differ, none otherwise.
pub open spec fn diff_if(field: Seq<char>, original: Seq<char>, replayed: Seq<char>) -> Seq<(Seq<char>, Seq<char>, Seq<char>)> {
    if original != replayed {
        seq![(field, original, replayed)]
    } else {
        seq![]
    }
}

/// The fields on which a replayed proof pack differs from the recorded one, in a fixed order.
pub open spec fn diffs_of(o: ProofPack, r: ProofPack) -> Seq<(Seq<char>, Seq<char>, Seq<char>)> {
    diff_if("contract_hash"@, o.contract_hash@, r.contract_hash@) + diff_if(
        "proof_pack_cid"@,
        o.proof_pack_cid@,
        r.proof_pack_cid@,
    ) + diff_if("final_receipt_cid"@, receipt_or_dash(o.final_receipt_cid), receipt_or_dash(r.final_receipt_cid))
        + diff_if("final_outcome"@, outcome_debug(o.final_outcome@), outcome_debug(r.final_outcome@)) + diff_if(
        "event_count"@,
        decimal(o.event_count as nat),
        decimal(r.event_count as nat),
    ) + diff_if("transcript_head"@, o.transcript_head@, r.transcript_head@)
}

/// A replay matches exactly when every compared field is the same: contract hash, proof pack
/// cid, final receipt, outcome, event count and transcript head.
pub proof fn law_no_diff_iff_same_fields(o: ProofPack, r: ProofPack)
    ensures
        diffs_of(o, r).len() == 0 <==> ({
            &&& o.contract_hash@ == r.contract_hash@
            &&& o.proof_pack_cid@ == r.proof_pack_cid@
            &&& receipt_or_dash(o.final_receipt_cid) == receipt_or_dash(r.final_receipt_cid)
            &&& outcome_debug(o.final_outcome@) == outcome_debug(r.final_outcome@)
            &&& decimal(o.event_count as nat) == decimal(r.event_count as nat)
            &&& o.transcript_head@ == r.transcript_head@
        }),
{
}

/// Every diff names two different texts, and a transcript head that changed is always reported,
/// with the recorded head as the original and the replayed head as the replayed text.
pub proof fn law_changed_head_is_reported(o: ProofPack, r: ProofPack)
    ensures
        forall|i: int| 0 <= i < diffs_of(o, r).len() ==> (#[trigger] diffs_of(o, r)[i]).1 != diffs_of(o, r)[i].2,
        o.transcript_head@ != r.transcript_head@ ==> diffs_of(o, r).len() > 0 && diffs_of(o, r).last() == (
            "transcript_head"@,
            o.transcript_head@,
            r.transcript_head@,
        ),
{
    let a = diff_if("contract_hash"@, o.contract_hash@, r.contract_hash@);
    let b = diff_if("proof_pack_cid"@, o.proof_pack_cid@, r.proof_pack_cid@);
    let c = diff_if("final_receipt_cid"@, receipt_or_dash(o.final_receipt_cid), receipt_or_dash(r.final_receipt_cid));
    let d = diff_if("final_outcome"@, outcome_debug(o.final_outcome@), outcome_debug(r.final_outcome@));
    let e = diff_if("event_count"@, decimal(o.event_count as nat), decimal(r.event_count as nat));
    let f = diff_if("transcript_head"@, o.transcript_head@, r.transcript_head@);
    let all = diffs_of(o, r);
    assert(all =~= a + b + c + d + e + f);
    assert forall|i: int| 0 <= i < all.len() implies (#[trigger] all[i]).1 != all[i].2 by {
        let ab = a + b;
        let abc = ab + c;
        let abcd = abc + d;
        let abcde = abcd + e;
        if i < a.len() {
            assert(all[i] == a[i]);
        } else if i < ab.len() {
            assert(all[i] == b[i - a.len()]);
        } else if i < abc.len() {
            assert(all[i] == c[i - ab.len()]);
        } else if i < abcd.len() {
            assert(all[i] == d[i - abc.len()]);
        } else if i < abcde.len() {
            assert(all[i] == e[i - abcd.len()]);
        } else {
            assert(all[i] == f[i - abcde.len()]);
        }
    }
}

/// The compared fields of two proof packs: each name with the recorded and the replayed text.
pub open spec fn compared_fields(o: ProofPack, r: ProofPack) -> Seq<(Seq<char>, Seq<char>, Seq<char>)> {
    seq![
        ("contract_hash"@, o.contract_hash@, r.contract_hash@),
        ("proof_pack_cid"@, o.proof_pack_cid@, r.proof_pack_cid@),
        ("final_receipt_cid"@, receipt_or_dash(o.final_receipt_cid), receipt_or_dash(r.final_receipt_cid)),
        ("final_outcome"@, outcome_debug(o.final_outcome@), outcome_debug(r.final_outcome@)),
        ("event_count"@, decimal(o.event_count as nat), decimal(r.event_count as nat)),
        ("transcript_head"@, o.transcript_head@, r.transcript_head@),
    ]
}

/// The diffs are exactly the compared fields that changed: each field whose recorded and
/// replayed texts differ is reported with both texts, and every reported diff is such a field.
pub proof fn law_diffs_are_the_changed_fields(o: ProofPack, r: ProofPack)
    ensures
        forall|k: int| 0 <= k < 6 && (#[trigger] compared_fields(o, r)[k]).1 != compared_fields(o, r)[k].2
            ==> diffs_of(o, r).contains(compared_fields(o, r)[k]),
        forall|i: int| 0 <= i < diffs_of(o, r).len() ==> exists|k: int| 0 <= k < 6 && #[trigger] compared_fields(o, r)[k]
            == #[trigger] diffs_of(o, r)[i] && compared_fields(o, r)[k].1 != compared_fields(o, r)[k].2,
        diffs_of(o, r).len() <= 6,
{
    let fs = compared_fields(o, r);
    let a = diff_if(fs[0].0, fs[0].1, fs[0].2);
    let b = diff_if(fs[1].0, fs[1].1, fs[1].2);
    let c = diff_if(fs[2].0, fs[2].1, fs[2].2);
    let d = diff_if(fs[3].0, fs[3].1, fs[3].2);
    let e = diff_if(fs[4].0, fs[4].1, fs[4].2);
    let f = diff_if(fs[5].0, fs[5].1, fs[5].2);
    let all = diffs_of(o, r);
    assert(all =~= a + b + c + d + e + f);
    let n1: int = a.len() as int;
    let n2: int = n1 + b.len();
    let n3: int = n2 + c.len();
    let n4: int = n3 + d.len();
    let n5: int = n4 + e.len();
    assert forall|k: int| 0 <= k < 6 && (#[trigger] fs[k]).1 != fs[k].2 implies all.contains(fs[k]) by {
        if k == 0 {
            assert(all[0] == fs[0]);
        } else if k == 1 {
            assert(all[n1] == fs[1]);
        } else if k == 2 {
            assert(all[n2] == fs[2]);
        } else if k == 3 {
            assert(all[n3] == fs[3]);
        } else if k == 4 {
            assert(all[n4] == fs[4]);
        } else {
            assert(all[n5] == fs[5]);
        }
    }
    assert forall|i: int| 0 <= i < all.len() implies exists|k: int| 0 <= k < 6 && #[trigger] fs[k] == #[trigger] all[i] && fs[k].1
        != fs[k].2 by {
        if i < n1 {
            assert(fs[0] == all[i]);
        } else if i < n2 {
            assert(fs[1] == all[i]);
        } else if i < n3 {
            assert(fs[2] == all[i]);
        } else if i < n4 {
            assert(fs[3] == all[i]);
        } else if i < n5 {
            assert(fs[4] == all[i]);
        } else {
            assert(fs[5] == all[i]);
        }
    }
}

proof fn lemma_first_diff_field(o: ProofPack, r: ProofPack)
    ensures
        (diffs_of(o, r).len() > 0 && diffs_of(o, r)[0].0 == "contract_hash"@) <==> o.contract_hash@ != r.contract_hash@,
{
    reveal_strlit("contract_hash");
    reveal_strlit("proof_pack_cid");
    reveal_strlit("final_receipt_cid");
    reveal_strlit("final_outcome");
    reveal_strlit("event_count");
    reveal_strlit("transcript_head");
    let c = "contract_hash"@;
    assert("proof_pack_cid"@.len() != c.len());
    assert("final_receipt_cid"@.len() != c.len());
    assert("final_outcome"@[0] != c[0]);
    assert("event_count"@.len() != c.len());
    assert("transcript_head"@.len() != c.len());
    let rest = diff_if("proof_pack_cid"@, o.proof_pack_cid@, r.proof_pack_cid@) + diff_if(
        "final_receipt_cid"@,
        receipt_or_dash(o.final_receipt_cid),
        receipt_or_dash(r.final_receipt_cid),
    ) + diff_if("final_outcome"@, outcome_debug(o.final_outcome@), outcome_debug(r.final_outcome@)) + diff_if(
        "event_count"@,
        decimal(o.event_count as nat),
        decimal(r.event_count as nat),
    ) + diff_if("transcript_head"@, o.transcript_head@, r.transcript_head@);
    assert(diffs_of(o, r) =~= diff_if(c, o.contract_hash@, r.contract_hash@) + rest);
    if o.contract_hash@ == r.contract_hash@ && rest.len() > 0 {
        assert(diffs_of(o, r)[0] == rest[0]);
        assert(rest[0].0 != c);
    }
}

/// The views of a list of diffs.
pub open spec fn diff_views(v: Seq<ReplayFieldDiff>) -> Seq<(Seq<char>, Seq<char>, Seq<char>)> {
    v.map_values(|d: ReplayFieldDiff| d@)
}

/// The replay log lines of a replay: whether it matched, then one line per diff.
pub open spec fn replay_lines(case_id: Seq<char>, diffs: Seq<(Seq<char>, Seq<char>, Seq<char>)>) -> Seq<Seq<char>> {
    let head = "case="@ + case_id + " replay_match="@ + (if diffs.len() == 0 {
        "true"@
    } else {
        "false"@
    });
    seq![head] + Seq::new(
        diffs.len(),
        |i: int|
            "case="@ + case_id + " diff field="@ + diffs[i].0 + " original="@ + diffs[i].1 + " replayed="@ + diffs[i].2,
    )
}

/// Only the replay log may have changed.
pub open spec fn only_replay_log_changed(a: AppState, b: AppState) -> bool {
    &&& b.manager.cases@ == a.manager.cases@
    &&& b.manager.inbox@ == a.manager.inbox@
    &&& b.statuses@ == a.statuses@
    &&& b.case_timeline@ == a.case_timeline@
    &&& crate::manager_app::app_state::runs_unchanged(a, b)
    &&& witnesses_unchanged(a, b)
    &&& b.federation_log@ == a.federation_log@
    &&& b.pointer_announcements@ == a.pointer_announcements@
    &&& b.acceptance_receipts@ == a.acceptance_receipts@
    &&& b.fork_registry@ == a.fork_registry@
}

fn cool_listed(m: &mut KeyedMap<Cid, EpistemicHeat>, cids: &Vec<Cid>)
    ensures
        final(m)@ == cooled(old(m)@, cid_texts(cids@)),
{
    let mut i: usize = 0;
    while i < cids.len()
        invariant
            i <= cids@.len(),
            m@ == cooled(old(m)@, cid_texts(cids@.take(i as int))),
        decreases cids@.len() - i,
    {
        proof {
            assert(cid_texts(cids@.take(i + 1)).drop_last() =~= cid_texts(cids@.take(i as int)));
        }
        if m.contains_key(cids[i].as_str()) {
            m.insert(cids[i].clone(), EpistemicHeat::Cold);
        }
        i += 1;
    }
    proof {
        assert(cids@.take(cids@.len() as int) =~= cids@);
    }
}

fn atom_list_text(cids: &Vec<Cid>) -> (s: String)
    ensures
        s@ == atom_list(cid_texts(cids@)),
{
    if cids.len() == 0 {
        return "none".to_string();
    }
    let parts = crate::manager_app::case_service::cid_text_list(cids);
    join_texts(&parts, ",")
}

fn push_diff(diffs: &mut Vec<ReplayFieldDiff>, field: &str, original: String, replayed: String)
    ensures
        diff_views(final(diffs)@) == diff_views(old(diffs)@) + diff_if(field@, original@, replayed@),
{
    let ghost before = diffs@;
    if !same_text(original.as_str(), replayed.as_str()) {
        diffs.push(ReplayFieldDiff { field: field.to_string(), original, replayed });
        proof {
            assert(diff_views(diffs@) =~= diff_views(before) + diff_if(field@, original@, replayed@));
        }
    } else {
        proof {
            assert(diff_views(diffs@) =~= diff_views(before) + diff_if(field@, original@, replayed@));
        }
    }
}

fn receipt_text_or_dash(r: &Option<ReceiptCid>) -> (s: String)
    ensures
        s@ == receipt_or_dash(*r),
{
    match r {
        Some(c) => c.to_text(),
        None => "-".to_string(),
    }
}

/// The fields on which the replayed proof pack `r` differs from the recorded `o`, each with
/// both texts: contract hash, proof pack cid, final receipt, outcome, event count and transcript
/// head, in that order.
pub fn diff_proofs(o: &ProofPack, r: &ProofPack) -> (diffs: Vec<ReplayFieldDiff>)
    ensures
        diff_views(diffs@) == diffs_of(*o, *r),
{
    let mut diffs: Vec<ReplayFieldDiff> = Vec::new();
    assert(diff_views(diffs@) =~= Seq::<(Seq<char>, Seq<char>, Seq<char>)>::empty());
    push_diff(&mut diffs, "contract_hash", o.contract_hash.to_text(), r.contract_hash.to_text());
    push_diff(&mut diffs, "proof_pack_cid", o.proof_pack_cid.to_text(), r.proof_pack_cid.to_text());
    push_diff(
        &mut diffs,
        "final_receipt_cid",
        receipt_text_or_dash(&o.final_receipt_cid),
        receipt_text_or_dash(&r.final_receipt_cid),
    );
    push_diff(&mut diffs, "final_outcome", o.final_outcome.debug_text(), r.final_outcome.debug_text());
    push_diff(&mut diffs, "event_count", decimal_text(o.event_count), decimal_text(r.event_count));
    push_diff(&mut diffs, "transcript_head", o.transcript_head.to_text(), r.transcript_head.to_text());
    proof {
        assert(diff_views(diffs@) =~= diffs_of(*o, *r));
    }
    diffs
}

impl ReplayService {
    /// Drops the case's hot projection, marks those atoms cold in the case's heat map (when it
    /// has one), and logs what was wiped.
    pub fn wipe_hot_state(state: &mut AppState, case_id: &str) -> (r: Result<WipeReport, String>)
        ensures
            r matches Ok(rep) && rep.case_id@ == case_id@ && cid_texts(rep.wiped_hot_atoms@) == hot_of(
                *old(state),
                case_id@,
            ),
            final(state).hot_atoms_by_case@ == old(state).hot_atoms_by_case@.remove(case_id@),
            old(state).case_atom_heat@.contains_key(case_id@) ==> ({
                &&& final(state).case_atom_heat@.contains_key(case_id@)
                &&& final(state).case_atom_heat@ == old(state).case_atom_heat@.insert(
                    case_id@,
                    final(state).case_atom_heat@[case_id@],
                )
                &&& final(state).case_atom_heat@[case_id@]@ == cooled(
                    old(state).case_atom_heat@[case_id@]@,
                    hot_of(*old(state), case_id@),
                )
            }),
            !old(state).case_atom_heat@.contains_key(case_id@) ==> final(state).case_atom_heat@
                == old(state).case_atom_heat@,
            texts(final(state).replay_log@) == texts(old(state).replay_log@).push(
                "case="@ + case_id@ + " wipe_hot_atoms="@ + atom_list(hot_of(*old(state), case_id@)),
            ),
            final(state).case_timeline@ == old(state).case_timeline@.insert(case_id@, final(state).case_timeline@[case_id@]),
            texts(final(state).case_timeline@[case_id@]@) == lines_of(old(state).case_timeline@, case_id@).push(
                "replay action=wipe-hot-state atoms=["@ + atom_list(hot_of(*old(state), case_id@)) + "]"@,
            ),
            final(state).manager.cases@ == old(state).manager.cases@,
            final(state).manager.inbox@ == old(state).manager.inbox@,
            final(state).statuses@ == old(state).statuses@,
            final(state).proofs@ == old(state).proofs@,
            final(state).worker_ledger_by_case@ == old(state).worker_ledger_by_case@,
            witnesses_unchanged(*old(state), *final(state)),
            final(state).federation_log@ == old(state).federation_log@,
            final(state).pointer_announcements@ == old(state).pointer_announcements@,
            final(state).acceptance_receipts@ == old(state).acceptance_receipts@,
            final(state).fork_registry@ == old(state).fork_registry@,
    {
        let wiped_hot_atoms = match state.hot_atoms_by_case.remove(case_id) {
            Some(v) => v,
            None => Vec::new(),
        };
        assert(cid_texts(wiped_hot_atoms@) =~= hot_of(*old(state), case_id@));
        match state.case_atom_heat.remove(case_id) {
            Some(mut heat) => {
                cool_listed(&mut heat, &wiped_hot_atoms);
                state.case_atom_heat.insert(case_id.to_string(), heat);
                proof {
                    assert(state.case_atom_heat@ =~= old(state).case_atom_heat@.insert(
                        case_id@,
                        state.case_atom_heat@[case_id@],
                    ));
                }
            },
            None => {
                proof {
                    assert(state.case_atom_heat@ =~= old(state).case_atom_heat@);
                }
            },
        }
        let list = atom_list_text(&wiped_hot_atoms);
        let ghost log0 = state.replay_log@;
        state.replay_log.push("case=".to_string().concat(case_id).concat(" wipe_hot_atoms=").concat(list.as_str()));
        proof {
            assert(texts(state.replay_log@) =~= texts(log0).push(state.replay_log@.last()@));
        }
        push_timeline(
            &mut state.case_timeline,
            case_id,
            "replay action=wipe-hot-state atoms=[".to_string().concat(list.as_str()).concat("]"),
        );
        Ok(WipeReport { case_id: CaseId::new(case_id), wiped_hot_atoms })
    }

    /// Re-runs the case from scratch and compares the new proof pack with the recorded one on
    /// contract, proof pack cid, final receipt, outcome, event count and transcript head; the
    /// replay log gets whether it matched and each difference.
    pub fn replay_case_with_diff(state: &mut AppState, case_id: &str) -> (r: Result<ReplayReport, String>)
        ensures
            !old(state).proofs@.contains_key(case_id@) ==> (r matches Err(e) && e@ == "missing original proof for "@
                + case_id@) && final(state).replay_log@ == old(state).replay_log@,
            old(state).proofs@.contains_key(case_id@) ==> (r matches Ok(rep) && ({
                let o = old(state).proofs@[case_id@];
                &&& rep.case_id@ == case_id@
                &&& rep.matches == (rep.diffs@.len() == 0)
                &&& exists|rp: ProofPack| #[trigger] document_proof(case_id@, rp) && diff_views(rep.diffs@) == diffs_of(o, rp)
                &&& (rep.diffs@.len() > 0 && rep.diffs@[0].field@ == "contract_hash"@) <==> o.contract_hash@
                    != "contract:document-intake:v7"@
                &&& texts(final(state).replay_log@) == texts(old(state).replay_log@) + replay_lines(
                    case_id@,
                    diff_views(rep.diffs@),
                )
            })),
            only_replay_log_changed(*old(state), *final(state)),
    {
        let diffs = match state.proofs.get(case_id) {
            None => {
                return Err("missing original proof for ".to_string().concat(case_id));
            },
            Some(original) => {
                let replay = match execute_document_case(&CaseId::new(case_id)) {
                    Ok(ex) => ex,
                    Err(e) => {
                        return Err(e);
                    },
                };
                let diffs = diff_proofs(original, &replay.proof);
                proof {
                    assert(document_proof(case_id@, replay.proof));
                    lemma_first_diff_field(*original, replay.proof);
                    let dv = diff_views(diffs@);
                    assert(dv.len() == diffs@.len());
                    if diffs@.len() > 0 {
                        assert(dv[0] == diffs@[0]@);
                    }
                }
                diffs
            },
        };
        let matches = diffs.len() == 0;
        let ghost log0 = state.replay_log@;
        let flag = if matches {
            "true"
        } else {
            "false"
        };
        state.replay_log.push("case=".to_string().concat(case_id).concat(" replay_match=").concat(flag));
        if !matches {
            let mut i: usize = 0;
            while i < diffs.len()
                invariant
                    i <= diffs@.len(),
                    diffs@.len() > 0,
                    texts(state.replay_log@) == texts(log0) + replay_lines(case_id@, diff_views(diffs@)).take(i + 1),
                    only_replay_log_changed(*old(state), *state),
                decreases diffs@.len() - i,
            {
                let ghost before = state.replay_log@;
                let d = &diffs[i];
                state.replay_log.push(
                    "case=".to_string().concat(case_id).concat(" diff field=").concat(d.field.as_str()).concat(
                        " original=",
                    ).concat(d.original.as_str()).concat(" replayed=").concat(d.replayed.as_str()),
                );
                proof {
                    let lines = replay_lines(case_id@, diff_views(diffs@));
                    assert(diff_views(diffs@)[i as int] == diffs@[i as int]@);
                    assert(lines.take(i + 2) =~= lines.take(i + 1).push(lines[i + 1]));
                    assert(texts(state.replay_log@) =~= texts(before).push(state.replay_log@.last()@));
                }
                i += 1;
            }
            proof {
                assert(replay_lines(case_id@, diff_views(diffs@)).take(diffs@.len() as int + 1) =~= replay_lines(
                    case_id@,
                    diff_views(diffs@),
                ));
            }
        } else {
            proof {
                assert(texts(state.replay_log@) =~= texts(log0) + replay_lines(case_id@, diff_views(diffs@)));
            }
        }
        Ok(ReplayReport { case_id: CaseId::new(case_id), matches, diffs })
    }

    /// Whether a replay of the case from scratch matches its recorded proof pack.
    pub fn replay_case_from_ashes(state: &mut AppState, case_id: &str) -> (r: Result<bool, String>)
        ensures
            !old(state).proofs@.contains_key(case_id@) ==> (r matches Err(e) && e@ == "missing original proof for "@
                + case_id@),
            old(state).proofs@.contains_key(case_id@) ==> (r matches Ok(b) && exists|rp: ProofPack|
                #[trigger] document_proof(case_id@, rp) && b == (diffs_of(old(state).proofs@[case_id@], rp).len() == 0)),
            only_replay_log_changed(*old(state), *final(state)),
    {
        match Self::replay_case_with_diff(state, case_id) {
            Ok(report) => Ok(report.matches),
            Err(e) => Err(e),
        }
    }
}

} // verus!
