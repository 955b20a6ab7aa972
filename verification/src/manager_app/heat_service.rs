//! Debug controls for the heat of a case's atoms: heat up, cool down, and a sorted snapshot.

use vstd::prelude::*;

use crate::ids::Cid;
use crate::keyed_map::{distinct_keys, has_key, KeyedMap, MapKey};
use crate::manager_app::app_state::{lines_of, push_timeline, texts, witnesses_unchanged, AppState};
use crate::manager_app::demo_domain::{heat_pairs, hot_among, hot_cids};
use crate::storage::EpistemicHeat;
use crate::text::{lemma_text_lt_total, lemma_text_lt_transitive, text_less, text_lt};
use crate::transcript::cid_texts;

verus! {

/// The heat controls of the application.
pub struct HeatService;

/// The heat map of a case (empty when the case has none).
pub open spec fn case_heat(s: AppState, case_id: Seq<char>) -> Map<Seq<char>, EpistemicHeat> {
    if s.case_atom_heat@.contains_key(case_id) {
        s.case_atom_heat@[case_id]@
    } else {
        Map::empty()
    }
}

/// The hot projection of the case is rebuilt from its heat map: the hot cids, in the map's order.
pub open spec fn projection_rebuilt(s: AppState, case_id: Seq<char>) -> bool {
    &&& s.case_atom_heat@.contains_key(case_id)
    &&& s.hot_atoms_by_case@.contains_key(case_id)
    &&& cid_texts(s.hot_atoms_by_case@[case_id]@) == hot_cids(s.case_atom_heat@[case_id].pairs())
}

/// Everything but the heat, the hot projection, the timelines and the replay log is as it was.
pub open spec fn heat_frame(a: AppState, b: AppState) -> bool {
    &&& b.manager.cases@ == a.manager.cases@
    &&& b.manager.inbox@ == a.manager.inbox@
    &&& b.statuses@ == a.statuses@
    &&& b.proofs@ == a.proofs@
    &&& b.worker_ledger_by_case@ == a.worker_ledger_by_case@
    &&& witnesses_unchanged(a, b)
    &&& b.federation_log@ == a.federation_log@
    &&& b.pointer_announcements@ == a.pointer_announcements@
    &&& b.acceptance_receipts@ == a.acceptance_receipts@
    &&& b.fork_registry@ == a.fork_registry@
}

/// A cid is among the hot cids exactly when some pair has it at heat `Hot`.
pub proof fn lemma_hot_cids_members(pairs: Seq<(Cid, EpistemicHeat)>, x: Seq<char>)
    ensures
        hot_cids(pairs).contains(x) <==> exists|i: int| 0 <= i < pairs.len() && pairs[i].0@ == x && pairs[i].1 == EpistemicHeat::Hot,
    decreases pairs.len(),
{
    if pairs.len() > 0 {
        let init = pairs.drop_last();
        lemma_hot_cids_members(init, x);
        if hot_cids(pairs).contains(x) {
            if hot_cids(init).contains(x) {
                let i = choose|i: int| 0 <= i < init.len() && init[i].0@ == x && init[i].1 == EpistemicHeat::Hot;
                assert(pairs[i] == init[i]);
            } else {
                let k = choose|k: int| 0 <= k < hot_cids(pairs).len() && hot_cids(pairs)[k] == x;
                assert(pairs.last().1 == EpistemicHeat::Hot);
                assert(k == hot_cids(init).len());
                assert(pairs[pairs.len() - 1].0@ == x);
            }
        }
        if exists|i: int| 0 <= i < pairs.len() && pairs[i].0@ == x && pairs[i].1 == EpistemicHeat::Hot {
            let i = choose|i: int| 0 <= i < pairs.len() && pairs[i].0@ == x && pairs[i].1 == EpistemicHeat::Hot;
            if i < pairs.len() - 1 {
                assert(init[i] == pairs[i]);
                let k = choose|k: int| 0 <= k < hot_cids(init).len() && hot_cids(init)[k] == x;
                if pairs.last().1 == EpistemicHeat::Hot {
                    assert(hot_cids(pairs)[k] == x);
                }
            } else {
                assert(hot_cids(pairs)[hot_cids(init).len() as int] == x);
            }
        }
    }
}

fn case_heat_map(state: &mut AppState, case_id: &str) -> (m: KeyedMap<Cid, EpistemicHeat>)
    ensures
        m@ == case_heat(*old(state), case_id@),
        final(state).case_atom_heat@ == old(state).case_atom_heat@.remove(case_id@),
        final(state).hot_atoms_by_case@ == old(state).hot_atoms_by_case@,
        final(state).case_timeline@ == old(state).case_timeline@,
        final(state).replay_log@ == old(state).replay_log@,
        heat_frame(*old(state), *final(state)),
{
    match state.case_atom_heat.remove(case_id) {
        Some(m) => m,
        None => {
            let m = KeyedMap::new();
            assert(m@ =~= case_heat(*old(state), case_id@));
            m
        },
    }
}

fn rebuild_hot_projection(state: &mut AppState, case_id: &str, heat: KeyedMap<Cid, EpistemicHeat>)
    ensures
        final(state).case_atom_heat@ == old(state).case_atom_heat@.insert(case_id@, heat),
        final(state).hot_atoms_by_case@ == old(state).hot_atoms_by_case@.insert(
            case_id@,
            final(state).hot_atoms_by_case@[case_id@],
        ),
        projection_rebuilt(*final(state), case_id@),
        final(state).case_timeline@ == old(state).case_timeline@,
        final(state).replay_log@ == old(state).replay_log@,
        heat_frame(*old(state), *final(state)),
{
    let pairs = heat_pairs(&heat);
    let hot = hot_among(&pairs);
    state.case_atom_heat.insert(case_id.to_string(), heat);
    state.hot_atoms_by_case.insert(case_id.to_string(), hot);
}

/// The hot cids of a heat map hold exactly the cids at heat `Hot`.
proof fn lemma_projection_members(m: KeyedMap<Cid, EpistemicHeat>, x: Seq<char>)
    requires
        distinct_keys(m.pairs()),
        forall|i: int|
            0 <= i < m.pairs().len() ==> #[trigger] m@.contains_key(m.pairs()[i].0.key_view())
                && m@[m.pairs()[i].0.key_view()] == m.pairs()[i].1,
        forall|k: Seq<char>| #[trigger] m@.contains_key(k) ==> has_key(m.pairs(), k),
    ensures
        hot_cids(m.pairs()).contains(x) <==> (m@.contains_key(x) && m@[x] == EpistemicHeat::Hot),
{
    lemma_hot_cids_members(m.pairs(), x);
    if m@.contains_key(x) {
        let i = choose|i: int| 0 <= i < m.pairs().len() && #[trigger] m.pairs()[i].0.key_view() == x;
        assert(m@.contains_key(m.pairs()[i].0.key_view()));
    }
    if exists|i: int| 0 <= i < m.pairs().len() && m.pairs()[i].0@ == x && m.pairs()[i].1 == EpistemicHeat::Hot {
        let i = choose|i: int| 0 <= i < m.pairs().len() && m.pairs()[i].0@ == x && m.pairs()[i].1 == EpistemicHeat::Hot;
        assert(m@.contains_key(m.pairs()[i].0.key_view()));
    }
}

impl HeatService {
    /// Marks the atom hot in the case's heat map (creating the map if needed), rebuilds the
    /// case's hot projection, and logs the change.
    pub fn heat_up(state: &mut AppState, case_id: &str, cid: Cid) -> (r: Result<(), String>)
        ensures
            r is Ok,
            final(state).case_atom_heat@.contains_key(case_id@),
            final(state).case_atom_heat@ == old(state).case_atom_heat@.insert(
                case_id@,
                final(state).case_atom_heat@[case_id@],
            ),
            final(state).case_atom_heat@[case_id@]@ == case_heat(*old(state), case_id@).insert(cid@, EpistemicHeat::Hot),
            final(state).hot_atoms_by_case@ == old(state).hot_atoms_by_case@.insert(
                case_id@,
                final(state).hot_atoms_by_case@[case_id@],
            ),
            projection_rebuilt(*final(state), case_id@),
            cid_texts(final(state).hot_atoms_by_case@[case_id@]@).contains(cid@),
            final(state).case_timeline@ == old(state).case_timeline@.insert(case_id@, final(state).case_timeline@[case_id@]),
            texts(final(state).case_timeline@[case_id@]@) == lines_of(old(state).case_timeline@, case_id@).push(
                "heat action=heat-up cid="@ + cid@ + " target=Hot"@,
            ),
            texts(final(state).replay_log@) == texts(old(state).replay_log@).push(
                "case="@ + case_id@ + " heat_up="@ + cid@,
            ),
            heat_frame(*old(state), *final(state)),
    {
        let mut heat = case_heat_map(state, case_id);
        heat.insert(cid.clone(), EpistemicHeat::Hot);
        proof {
            assert(heat@.contains_key(cid@));
        }
        let _ = heat.len();
        proof {
            lemma_projection_members(heat, cid@);
        }
        rebuild_hot_projection(state, case_id, heat);
        proof {
            assert(state.case_atom_heat@ =~= old(state).case_atom_heat@.insert(case_id@, state.case_atom_heat@[case_id@]));
        }
        push_timeline(
            &mut state.case_timeline,
            case_id,
            "heat action=heat-up cid=".to_string().concat(cid.as_str()).concat(" target=Hot"),
        );
        let ghost log0 = state.replay_log@;
        state.replay_log.push("case=".to_string().concat(case_id).concat(" heat_up=").concat(cid.as_str()));
        proof {
            assert(texts(state.replay_log@) =~= texts(log0).push(state.replay_log@.last()@));
        }
        Ok(())
    }

    /// Marks a tracked atom cold (the case's heat map is created even when the atom is not
    /// tracked), rebuilds the case's hot projection, and logs the change.
    pub fn cool_down(state: &mut AppState, case_id: &str, cid: &Cid) -> (r: Result<(), String>)
        ensures
            final(state).case_atom_heat@.contains_key(case_id@),
            final(state).case_atom_heat@ == old(state).case_atom_heat@.insert(
                case_id@,
                final(state).case_atom_heat@[case_id@],
            ),
            !case_heat(*old(state), case_id@).contains_key(cid@) ==> ({
                &&& r matches Err(e) && e@ == "cid "@ + cid@ + " is not tracked for case "@ + case_id@
                &&& final(state).case_atom_heat@[case_id@]@ == case_heat(*old(state), case_id@)
                &&& final(state).hot_atoms_by_case@ == old(state).hot_atoms_by_case@
                &&& final(state).case_timeline@ == old(state).case_timeline@
                &&& final(state).replay_log@ == old(state).replay_log@
            }),
            case_heat(*old(state), case_id@).contains_key(cid@) ==> ({
                &&& r is Ok
                &&& final(state).case_atom_heat@[case_id@]@ == case_heat(*old(state), case_id@).insert(
                    cid@,
                    EpistemicHeat::Cold,
                )
                &&& final(state).hot_atoms_by_case@ == old(state).hot_atoms_by_case@.insert(
                    case_id@,
                    final(state).hot_atoms_by_case@[case_id@],
                )
                &&& projection_rebuilt(*final(state), case_id@)
                &&& !cid_texts(final(state).hot_atoms_by_case@[case_id@]@).contains(cid@)
                &&& final(state).case_timeline@ == old(state).case_timeline@.insert(
                    case_id@,
                    final(state).case_timeline@[case_id@],
                )
                &&& texts(final(state).case_timeline@[case_id@]@) == lines_of(old(state).case_timeline@, case_id@).push(
                    "heat action=cool-down cid="@ + cid@ + " target=Cold"@,
                )
                &&& texts(final(state).replay_log@) == texts(old(state).replay_log@).push(
                    "case="@ + case_id@ + " cool_down="@ + cid@,
                )
            }),
            heat_frame(*old(state), *final(state)),
    {
        let mut heat = case_heat_map(state, case_id);
        if !heat.contains_key(cid.as_str()) {
            let ghost h = heat;
            state.case_atom_heat.insert(case_id.to_string(), heat);
            proof {
                assert(state.case_atom_heat@ =~= old(state).case_atom_heat@.insert(case_id@, h));
            }
            return Err("cid ".to_string().concat(cid.as_str()).concat(" is not tracked for case ").concat(case_id));
        }
        heat.insert(cid.clone(), EpistemicHeat::Cold);
        let _ = heat.len();
        proof {
            lemma_projection_members(heat, cid@);
        }
        rebuild_hot_projection(state, case_id, heat);
        proof {
            assert(state.case_atom_heat@ =~= old(state).case_atom_heat@.insert(case_id@, state.case_atom_heat@[case_id@]));
        }
        push_timeline(
            &mut state.case_timeline,
            case_id,
            "heat action=cool-down cid=".to_string().concat(cid.as_str()).concat(" target=Cold"),
        );
        let ghost log0 = state.replay_log@;
        state.replay_log.push("case=".to_string().concat(case_id).concat(" cool_down=").concat(cid.as_str()));
        proof {
            assert(texts(state.replay_log@) =~= texts(log0).push(state.replay_log@.last()@));
        }
        Ok(())
    }
}

/// The pairs are in strictly increasing order of their cids' text.
pub open spec fn sorted_by_cid(s: Seq<(Cid, EpistemicHeat)>) -> bool {
    forall|i: int, j: int| 0 <= i < j < s.len() ==> text_lt(#[trigger] s[i].0@, #[trigger] s[j].0@)
}

/// The pair is one of the pairs of `b`.
pub open spec fn found_in(x: (Cid, EpistemicHeat), b: Seq<(Cid, EpistemicHeat)>) -> bool {
    exists|j: int| 0 <= j < b.len() && #[trigger] b[j] == x
}

/// Every pair of `a` is a pair of `b`.
pub open spec fn pairs_within(a: Seq<(Cid, EpistemicHeat)>, b: Seq<(Cid, EpistemicHeat)>) -> bool {
    forall|i: int| 0 <= i < a.len() ==> found_in(#[trigger] a[i], b)
}

proof fn lemma_insert_keeps_order(before: Seq<(Cid, EpistemicHeat)>, p: int, x: (Cid, EpistemicHeat))
    requires
        sorted_by_cid(before),
        0 <= p <= before.len(),
        forall|k: int| 0 <= k < p ==> text_lt(#[trigger] before[k].0@, x.0@),
        forall|k: int| p <= k < before.len() ==> text_lt(x.0@, #[trigger] before[k].0@),
    ensures
        sorted_by_cid(before.insert(p, x)),
{
    let out = before.insert(p, x);
    assert forall|a: int, b: int| 0 <= a < b < out.len() implies text_lt(#[trigger] out[a].0@, #[trigger] out[b].0@) by {
        if a < p && b < p {
            assert(out[a] == before[a] && out[b] == before[b]);
        } else if a < p && b == p {
            assert(out[a] == before[a]);
        } else if a < p {
            assert(out[a] == before[a] && out[b] == before[b - 1]);
        } else if a == p {
            assert(out[b] == before[b - 1]);
        } else {
            assert(out[a] == before[a - 1] && out[b] == before[b - 1]);
        }
    }
}

proof fn lemma_insert_keeps_members(
    before: Seq<(Cid, EpistemicHeat)>,
    p: int,
    pairs: Seq<(Cid, EpistemicHeat)>,
    i: int,
)
    requires
        0 <= i < pairs.len(),
        0 <= p <= before.len(),
        pairs_within(before, pairs.take(i)),
        pairs_within(pairs.take(i), before),
    ensures
        pairs_within(before.insert(p, pairs[i]), pairs.take(i + 1)),
        pairs_within(pairs.take(i + 1), before.insert(p, pairs[i])),
{
    let x = pairs[i];
    let out = before.insert(p, x);
    let t = pairs.take(i + 1);
    let t0 = pairs.take(i);
    assert forall|a: int| 0 <= a < out.len() implies found_in(#[trigger] out[a], t) by {
        if a == p {
            assert(t[i] == out[a]);
        } else {
            let a0 = if a < p {
                a
            } else {
                a - 1
            };
            assert(out[a] == before[a0]);
            assert(found_in(before[a0], t0));
            let j = choose|j: int| 0 <= j < t0.len() && #[trigger] t0[j] == before[a0];
            assert(t[j] == out[a]);
        }
    }
    assert forall|j: int| 0 <= j < t.len() implies found_in(#[trigger] t[j], out) by {
        if j == i {
            assert(out[p] == t[j]);
        } else {
            assert(t[j] == t0[j]);
            assert(found_in(t0[j], before));
            let a0 = choose|a0: int| 0 <= a0 < before.len() && #[trigger] before[a0] == t0[j];
            if a0 < p {
                assert(out[a0] == t[j]);
            } else {
                assert(out[a0 + 1] == t[j]);
            }
        }
    }
    assert(pairs_within(out, t));
    assert(pairs_within(t, out));
}

proof fn lemma_insert_position(
    before: Seq<(Cid, EpistemicHeat)>,
    p: int,
    pairs: Seq<(Cid, EpistemicHeat)>,
    i: int,
)
    requires
        0 <= i < pairs.len(),
        distinct_keys(pairs),
        sorted_by_cid(before),
        pairs_within(before, pairs.take(i)),
        0 <= p <= before.len(),
        p < before.len() ==> !text_lt(before[p].0@, pairs[i].0@),
    ensures
        forall|k: int| p <= k < before.len() ==> text_lt(pairs[i].0@, #[trigger] before[k].0@),
{
    let x = pairs[i];
    assert forall|k: int| 0 <= k < before.len() implies before[k].0@ != x.0@ by {
        assert(found_in(before[k], pairs.take(i)));
        let j = choose|j: int| 0 <= j < pairs.take(i).len() && #[trigger] pairs.take(i)[j] == before[k];
        assert(pairs[j] == before[k]);
        assert(pairs[j].0.key_view() != pairs[i].0.key_view());
    }
    assert forall|k: int| p <= k < before.len() implies text_lt(x.0@, #[trigger] before[k].0@) by {
        lemma_text_lt_total(before[p].0@, x.0@);
        if k > p {
            lemma_text_lt_transitive(x.0@, before[p].0@, before[k].0@);
        }
    }
}

fn sort_by_cid(pairs: &Vec<(Cid, EpistemicHeat)>) -> (out: Vec<(Cid, EpistemicHeat)>)
    requires
        distinct_keys(pairs@),
    ensures
        sorted_by_cid(out@),
        out@.len() == pairs@.len(),
        pairs_within(out@, pairs@),
        pairs_within(pairs@, out@),
{
    let mut out: Vec<(Cid, EpistemicHeat)> = Vec::new();
    let mut i: usize = 0;
    while i < pairs.len()
        invariant
            i <= pairs@.len(),
            distinct_keys(pairs@),
            out@.len() == i,
            sorted_by_cid(out@),
            pairs_within(out@, pairs@.take(i as int)),
            pairs_within(pairs@.take(i as int), out@),
        decreases pairs@.len() - i,
    {
        let x = (pairs[i].0.clone(), pairs[i].1);
        assert(x == pairs@[i as int]);
        let mut p: usize = 0;
        while p < out.len() && text_less(out[p].0.as_str(), x.0.as_str())
            invariant
                p <= out@.len(),
                forall|k: int| 0 <= k < p ==> text_lt(#[trigger] out@[k].0@, x.0@),
            decreases out@.len() - p,
        {
            p += 1;
        }
        proof {
            lemma_insert_position(out@, p as int, pairs@, i as int);
            lemma_insert_keeps_order(out@, p as int, x);
            lemma_insert_keeps_members(out@, p as int, pairs@, i as int);
        }
        out.insert(p, x);
        i += 1;
    }
    proof {
        assert(pairs@.take(pairs@.len() as int) =~= pairs@);
    }
    out
}

impl HeatService {
    /// The heat of every atom of the case (none when the case has no heat map), in order of cid.
    pub fn snapshot(state: &AppState, case_id: &str) -> (out: Vec<(Cid, EpistemicHeat)>)
        ensures
            sorted_by_cid(out@),
            out@.len() == case_heat(*state, case_id@).len(),
            forall|i: int|
                0 <= i < out@.len() ==> #[trigger] case_heat(*state, case_id@).contains_key(out@[i].0@)
                    && case_heat(*state, case_id@)[out@[i].0@] == out@[i].1,
            forall|k: Seq<char>|
                #[trigger] case_heat(*state, case_id@).contains_key(k) ==> exists|i: int| 0 <= i < out@.len() && #[trigger] out@[i].0@ == k,
    {
        match state.case_atom_heat.get(case_id) {
            Some(m) => {
                let _ = m.len();
                let pairs = heat_pairs(m);
                let out = sort_by_cid(&pairs);
                proof {
                    assert forall|i: int| 0 <= i < out@.len() implies #[trigger] case_heat(*state, case_id@).contains_key(out@[i].0@)
                        && case_heat(*state, case_id@)[out@[i].0@] == out@[i].1 by {
                        assert(found_in(out@[i], pairs@));
                        let j = choose|j: int| 0 <= j < pairs@.len() && #[trigger] pairs@[j] == out@[i];
                        assert(m@.contains_key(m.pairs()[j].0.key_view()));
                    }
                    assert forall|k: Seq<char>| #[trigger] case_heat(*state, case_id@).contains_key(k) implies exists|i: int| 0 <= i < out@.len() && #[trigger] out@[i].0@ == k by {
                        assert(m@.contains_key(k));
                        let j = choose|j: int| 0 <= j < m.pairs().len() && #[trigger] m.pairs()[j].0.key_view() == k;
                        assert(found_in(pairs@[j], out@));
                        let i = choose|i: int| 0 <= i < out@.len() && #[trigger] out@[i] == pairs@[j];
                        assert(out@[i].0@ == k);
                    }
                }
                out
            },
            None => {
                let out: Vec<(Cid, EpistemicHeat)> = Vec::new();
                proof {
                    assert(case_heat(*state, case_id@) =~= Map::<Seq<char>, EpistemicHeat>::empty());
                }
                out
            },
        }
    }
}

} // verus!
