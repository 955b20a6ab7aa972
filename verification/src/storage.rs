//! Content-addressed atoms, their epistemic heat, and the space that holds them.

use vstd::prelude::*;

use crate::ids::{Cid, NodeId, PointerAlias, Signature};
use crate::keyed_map::{has_key, KeyedMap, MapKey};
use crate::text::{decimal, decimal_text, wrapped_debug, wrapped_debug_text};

verus! {

/// A unit of knowledge: header, links to other atoms, and a body.
#[derive(Debug, Clone)]
pub struct UniversalAtom {
    pub header: AtomHeader,
    pub links: Vec<Cid>,
    pub body: AtomBody,
}

/// What kind of atom this is, its size, producer and signature.
#[derive(Debug, Clone)]
pub struct AtomHeader {
    pub kind: AtomKind,
    pub size_bytes: u64,
    pub producer_hash: crate::ids::Hash,
    pub signature: Option<Signature>,
}

/// The payload: inline bytes, or a chunked body addressed by its root.
#[derive(Debug, Clone)]
pub enum AtomBody {
    Inline(Vec<u8>),
    Chunked { root_cid: Cid, codec: String, total_size_bytes: u64 },
}

/// The kinds of atoms.
#[derive(Debug, Clone, Copy, PartialEq, Eq, Structural)]
pub enum AtomKind {
    Weights,
    WasmContract,
    PromptText,
    ProofPack,
    StateRoot,
    WitnessData,
    WorkerManifest,
    Task,
    Receipt,
}

/// How close to hand an atom is: known by hash only, on disk, summarised, or fully loaded.
#[derive(Debug, Clone, Copy, PartialEq, Eq, Structural)]
pub enum EpistemicHeat {
    Absent,
    Cold,
    Warm,
    Hot,
}

/// Why an atom could not be handed over.
#[derive(Debug, Clone)]
pub enum PageFault {
    AtomNotHot { cid: Cid, current: EpistemicHeat },
    NetworkRequired { cid: Cid },
    BudgetExhausted { required: u64, available: u64 },
    CorruptedCid { expected: Cid, actual: Cid },
}

/// The name of a heat, as `Debug` writes it.
pub open spec fn heat_debug(h: EpistemicHeat) -> Seq<char> {
    match h {
        EpistemicHeat::Absent => "Absent"@,
        EpistemicHeat::Cold => "Cold"@,
        EpistemicHeat::Warm => "Warm"@,
        EpistemicHeat::Hot => "Hot"@,
    }
}

/// A page fault as `Debug` writes it.
pub open spec fn fault_debug(f: PageFault) -> Seq<char> {
    match f {
        PageFault::AtomNotHot { cid, current } => "AtomNotHot { cid: "@ + wrapped_debug("Cid"@, cid@) + ", current: "@
            + heat_debug(current) + " }"@,
        PageFault::NetworkRequired { cid } => "NetworkRequired { cid: "@ + wrapped_debug("Cid"@, cid@) + " }"@,
        PageFault::BudgetExhausted { required, available } => "BudgetExhausted { required: "@ + decimal(required as nat)
            + ", available: "@ + decimal(available as nat) + " }"@,
        PageFault::CorruptedCid { expected, actual } => "CorruptedCid { expected: "@ + wrapped_debug("Cid"@, expected@)
            + ", actual: "@ + wrapped_debug("Cid"@, actual@) + " }"@,
    }
}

impl EpistemicHeat {
    /// The name of the heat.
    pub fn debug_text(&self) -> (s: &'static str)
        ensures
            s@ == heat_debug(*self),
    {
        match self {
            EpistemicHeat::Absent => "Absent",
            EpistemicHeat::Cold => "Cold",
            EpistemicHeat::Warm => "Warm",
            EpistemicHeat::Hot => "Hot",
        }
    }
}

impl PageFault {
    /// The fault as `Debug` writes it.
    pub fn debug_text(&self) -> (s: String)
        ensures
            s@ == fault_debug(*self),
    {
        match self {
            PageFault::AtomNotHot { cid, current } => "AtomNotHot { cid: ".to_string().concat(
                wrapped_debug_text("Cid", cid.as_str()).as_str(),
            ).concat(", current: ").concat(current.debug_text()).concat(" }"),
            PageFault::NetworkRequired { cid } => "NetworkRequired { cid: ".to_string().concat(
                wrapped_debug_text("Cid", cid.as_str()).as_str(),
            ).concat(" }"),
            PageFault::BudgetExhausted { required, available } => "BudgetExhausted { required: ".to_string().concat(
                decimal_text(*required).as_str(),
            ).concat(", available: ").concat(decimal_text(*available).as_str()).concat(" }"),
            PageFault::CorruptedCid { expected, actual } => "CorruptedCid { expected: ".to_string().concat(
                wrapped_debug_text("Cid", expected.as_str()).as_str(),
            ).concat(", actual: ").concat(wrapped_debug_text("Cid", actual.as_str()).as_str()).concat(" }"),
        }
    }
}

/// How many tracked atoms are at each heat.
#[derive(Debug, Clone, Copy, PartialEq, Eq, Structural)]
pub struct ThermalMetrics {
    pub hot_atoms: u32,
    pub warm_atoms: u32,
    pub cold_atoms: u32,
}

impl Default for ThermalMetrics {
    fn default() -> (m: Self)
        ensures
            m.hot_atoms == 0 && m.warm_atoms == 0 && m.cold_atoms == 0,
    {
        ThermalMetrics { hot_atoms: 0, warm_atoms: 0, cold_atoms: 0 }
    }
}

/// A mutable pointer to an immutable head, with its place in the pointer's history.
#[derive(Debug, Clone)]
pub struct StatePointer {
    pub alias: PointerAlias,
    pub prev_head_cid: Option<Cid>,
    pub head_cid: Cid,
    pub sequence_number: u64,
    pub authority_id: NodeId,
    pub authority_signature: Signature,
}

/// The heat of a cid in a heat map: absent when the map does not track it.
pub open spec fn heat_in(heats: Map<Seq<char>, EpistemicHeat>, cid: Seq<char>) -> EpistemicHeat {
    if heats.contains_key(cid) {
        heats[cid]
    } else {
        EpistemicHeat::Absent
    }
}

/// The number of tracked atoms at the given heat.
pub open spec fn heat_count(heats: Map<Seq<char>, EpistemicHeat>, h: EpistemicHeat) -> nat {
    tracked_at(heats, h).len()
}

/// The tracked cids whose heat is `h`.
pub open spec fn tracked_at(heats: Map<Seq<char>, EpistemicHeat>, h: EpistemicHeat) -> Set<Seq<char>> {
    heats.dom().filter(|k: Seq<char>| heats[k] == h)
}

/// A place that holds atoms and tracks their heat.
pub trait AtomSpace {
    /// The heat recorded for each tracked cid.
    spec fn heat_view(&self) -> Map<Seq<char>, EpistemicHeat>;

    /// The atoms held, by cid.
    spec fn atom_view(&self) -> Map<Seq<char>, UniversalAtom>;

    fn current_heat(&self, cid: &Cid) -> (h: EpistemicHeat)
        ensures
            h == heat_in(self.heat_view(), cid@),
    ;

    fn heat_up(&mut self, cid: &Cid, target: EpistemicHeat) -> (r: Result<(), PageFault>)
        ensures
            r is Ok ==> heat_in(final(self).heat_view(), cid@) == target,
            r is Err ==> heat_in(final(self).heat_view(), cid@) == heat_in(old(self).heat_view(), cid@),
            forall|c: Seq<char>| c != cid@ ==> #[trigger] heat_in(final(self).heat_view(), c) == heat_in(
                old(self).heat_view(),
                c,
            ),
            final(self).atom_view() == old(self).atom_view(),
    ;

    fn cool_down(&mut self, cid: &Cid) -> (r: Result<(), String>)
        ensures
            r is Ok ==> heat_in(final(self).heat_view(), cid@) == EpistemicHeat::Cold,
            final(self).atom_view() == old(self).atom_view(),
    ;

    fn materialize(&mut self, cid: Cid, atom: UniversalAtom) -> (r: Result<(), String>);

    fn get_thermal_metrics(&self) -> (m: ThermalMetrics)
        requires
            self.heat_view().len() <= u32::MAX,
    ;

    fn get_atom(&self, cid: &Cid) -> (r: Option<&UniversalAtom>)
        ensures
            match r {
                Some(a) => self.atom_view().contains_key(cid@) && self.atom_view()[cid@] == *a,
                None => !self.atom_view().contains_key(cid@),
            },
    ;
}

/// An atom space kept in memory.
#[derive(Debug)]
pub struct InMemoryAtomSpace {
    pub atoms: KeyedMap<Cid, UniversalAtom>,
    pub heats: KeyedMap<Cid, EpistemicHeat>,
}

impl Default for InMemoryAtomSpace {
    fn default() -> (s: Self)
        ensures
            s.atoms@ == Map::<Seq<char>, UniversalAtom>::empty(),
            s.heats@ == Map::<Seq<char>, EpistemicHeat>::empty(),
    {
        InMemoryAtomSpace { atoms: KeyedMap::new(), heats: KeyedMap::new() }
    }
}

impl InMemoryAtomSpace {
    /// An empty space.
    pub fn new() -> (s: Self)
        ensures
            s.atoms@ == Map::<Seq<char>, UniversalAtom>::empty(),
            s.heats@ == Map::<Seq<char>, EpistemicHeat>::empty(),
    {
        InMemoryAtomSpace { atoms: KeyedMap::new(), heats: KeyedMap::new() }
    }
}

/// The tracked cids among the first `i` entries whose heat is `h`.
pub open spec fn heat_prefix_set(
    pairs: Seq<(Cid, EpistemicHeat)>,
    i: int,
    h: EpistemicHeat,
) -> Set<Seq<char>> {
    pairs.take(i).map_values(|p: (Cid, EpistemicHeat)| p.0@).to_set().filter(
        |k: Seq<char>| exists|j: int| 0 <= j < i && pairs[j].0@ == k && pairs[j].1 == h,
    )
}

fn count_heat(heats: &KeyedMap<Cid, EpistemicHeat>, h: EpistemicHeat) -> (n: u32)
    requires
        heats@.len() <= u32::MAX,
    ensures
        n == heat_count(heats@, h),
{
    let len = heats.len();
    let ghost pairs = heats.pairs();
    let mut n: u32 = 0;
    let mut i: usize = 0;
    assert(heat_prefix_set(pairs, 0, h) =~= Set::<Seq<char>>::empty());
    while i < len
        invariant
            len == pairs.len(),
            len <= u32::MAX,
            pairs == heats.pairs(),
            crate::keyed_map::distinct_keys(pairs),
            i <= len,
            n <= i,
            n == heat_prefix_set(pairs, i as int, h).len(),
            heat_prefix_set(pairs, i as int, h).finite(),
        decreases len - i,
    {
        let (k, v) = heats.entry_at(i);
        proof {
            let old_set = heat_prefix_set(pairs, i as int, h);
            let new_set = heat_prefix_set(pairs, i + 1, h);
            let kv = pairs[i as int].0@;
            assert(pairs.take(i + 1).map_values(|p: (Cid, EpistemicHeat)| p.0@) =~= pairs.take(
                i as int,
            ).map_values(|p: (Cid, EpistemicHeat)| p.0@).push(kv));
            assert(!old_set.contains(kv)) by {
                if old_set.contains(kv) {
                    let j = choose|j: int| 0 <= j < i && pairs[j].0@ == kv && pairs[j].1 == h;
                    assert(pairs[j].0.key_view() == pairs[i as int].0.key_view());
                }
            }
            if pairs[i as int].1 == h {
                assert(new_set =~= old_set.insert(kv)) by {
                    assert forall|q: Seq<char>| new_set.contains(q) implies old_set.insert(kv).contains(q) by {
                        if q != kv {
                            let j = choose|j: int| 0 <= j < i + 1 && pairs[j].0@ == q && pairs[j].1 == h;
                            assert(j != i);
                            assert(pairs.take(i as int).map_values(|p: (Cid, EpistemicHeat)| p.0@)[j] == q);
                        }
                    }
                    assert forall|q: Seq<char>| old_set.insert(kv).contains(q) implies new_set.contains(q) by {
                        if q == kv {
                            assert(pairs.take(i + 1).map_values(|p: (Cid, EpistemicHeat)| p.0@)[i as int] == q);
                        } else {
                            let j = choose|j: int| 0 <= j < i && pairs[j].0@ == q && pairs[j].1 == h;
                            assert(pairs.take(i + 1).map_values(|p: (Cid, EpistemicHeat)| p.0@)[j] == q);
                        }
                    }
                }
            } else {
                assert(new_set =~= old_set) by {
                    assert forall|q: Seq<char>| new_set.contains(q) implies old_set.contains(q) by {
                        let j = choose|j: int| 0 <= j < i + 1 && pairs[j].0@ == q && pairs[j].1 == h;
                        assert(j != i);
                        assert(pairs.take(i as int).map_values(|p: (Cid, EpistemicHeat)| p.0@)[j] == q);
                    }
                    assert forall|q: Seq<char>| old_set.contains(q) implies new_set.contains(q) by {
                        let j = choose|j: int| 0 <= j < i && pairs[j].0@ == q && pairs[j].1 == h;
                        assert(pairs.take(i + 1).map_values(|p: (Cid, EpistemicHeat)| p.0@)[j] == q);
                    }
                }
            }
        }
        if *v == h {
            n = n + 1;
        }
        i += 1;
    }
    proof {
        let s = heat_prefix_set(pairs, len as int, h);
        assert(s =~= tracked_at(heats@, h)) by {
            assert forall|q: Seq<char>| s.contains(q) implies tracked_at(heats@, h).contains(q) by {
                let j = choose|j: int| 0 <= j < len && pairs[j].0@ == q && pairs[j].1 == h;
                assert(heats@.contains_key(pairs[j].0.key_view()));
            }
            assert forall|q: Seq<char>| tracked_at(heats@, h).contains(q) implies s.contains(q) by {
                assert(heats@.contains_key(q));
                assert(has_key(pairs, q));
                let j = choose|j: int| 0 <= j < pairs.len() && #[trigger] pairs[j].0.key_view() == q;
                assert(heats@.contains_key(pairs[j].0.key_view()));
                assert(pairs.take(len as int) =~= pairs);
                assert(pairs.take(len as int).map_values(|p: (Cid, EpistemicHeat)| p.0@)[j] == q);
            }
        }
        assert(i == len);
        assert(n == s.len());

    }
    n
}

impl AtomSpace for InMemoryAtomSpace {
    open spec fn heat_view(&self) -> Map<Seq<char>, EpistemicHeat> {
        self.heats@
    }

    open spec fn atom_view(&self) -> Map<Seq<char>, UniversalAtom> {
        self.atoms@
    }

    /// The recorded heat, or `Absent`.
    fn current_heat(&self, cid: &Cid) -> (h: EpistemicHeat) {
        match self.heats.get(cid.as_str()) {
            Some(h) => *h,
            None => EpistemicHeat::Absent,
        }
    }

    /// Records the target heat of a held atom; an atom not held needs the network.
    fn heat_up(&mut self, cid: &Cid, target: EpistemicHeat) -> (r: Result<(), PageFault>)
        ensures
            r is Ok <==> old(self).atoms@.contains_key(cid@),
            r is Ok ==> final(self).heats@ == old(self).heats@.insert(cid@, target),
            r matches Err(f) ==> (f matches PageFault::NetworkRequired { cid: c } && c@ == cid@),
            r is Err ==> final(self).heats@ == old(self).heats@,
            final(self).atoms@ == old(self).atoms@,
    {
        if !self.atoms.contains_key(cid.as_str()) {
            return Err(PageFault::NetworkRequired { cid: cid.clone() });
        }
        self.heats.insert(cid.clone(), target);
        Ok(())
    }

    /// Marks a held atom cold; an unknown cid is an error.
    fn cool_down(&mut self, cid: &Cid) -> (r: Result<(), String>)
        ensures
            r is Ok <==> old(self).atoms@.contains_key(cid@),
            r is Ok ==> final(self).heats@ == old(self).heats@.insert(cid@, EpistemicHeat::Cold),
            r is Err ==> final(self).heats@ == old(self).heats@,
            final(self).atoms@ == old(self).atoms@,
    {
        if self.atoms.contains_key(cid.as_str()) {
            self.heats.insert(cid.clone(), EpistemicHeat::Cold);
            Ok(())
        } else {
            Err("unknown cid".to_string())
        }
    }

    /// Stores the atom under its cid and marks it cold.
    fn materialize(&mut self, cid: Cid, atom: UniversalAtom) -> (r: Result<(), String>)
        ensures
            r is Ok,
            final(self).atoms@ == old(self).atoms@.insert(cid@, atom),
            final(self).heats@ == old(self).heats@.insert(cid@, EpistemicHeat::Cold),
    {
        let key = cid.clone();
        self.atoms.insert(key, atom);
        self.heats.insert(cid, EpistemicHeat::Cold);
        Ok(())
    }

    /// Counts the tracked atoms that are hot, warm and cold.
    fn get_thermal_metrics(&self) -> (m: ThermalMetrics)
        ensures
            m.hot_atoms == heat_count(self.heats@, EpistemicHeat::Hot),
            m.warm_atoms == heat_count(self.heats@, EpistemicHeat::Warm),
            m.cold_atoms == heat_count(self.heats@, EpistemicHeat::Cold),
    {
        ThermalMetrics {
            hot_atoms: count_heat(&self.heats, EpistemicHeat::Hot),
            warm_atoms: count_heat(&self.heats, EpistemicHeat::Warm),
            cold_atoms: count_heat(&self.heats, EpistemicHeat::Cold),
        }
    }

    fn get_atom(&self, cid: &Cid) -> (r: Option<&UniversalAtom>) {
        self.atoms.get(cid.as_str())
    }
}

/// What a read gives back of a write: once `heat_up` succeeds, the atom reads at the target heat.
pub proof fn law_heat_up_then_read(
    before: Map<Seq<char>, EpistemicHeat>,
    cid: Seq<char>,
    target: EpistemicHeat,
)
    ensures
        heat_in(before.insert(cid, target), cid) == target,
{
}

/// A cid that was never tracked reads as absent.
pub proof fn law_untracked_is_absent(heats: Map<Seq<char>, EpistemicHeat>, cid: Seq<char>)
    requires
        !heats.contains_key(cid),
    ensures
        heat_in(heats, cid) == EpistemicHeat::Absent,
{
}

/// Changing the heat of one cid leaves the heat of every other cid as it was.
pub proof fn law_heat_change_is_local(
    heats: Map<Seq<char>, EpistemicHeat>,
    cid: Seq<char>,
    other: Seq<char>,
    target: EpistemicHeat,
)
    requires
        other != cid,
    ensures
        heat_in(heats.insert(cid, target), other) == heat_in(heats, other),
{
}

} // verus!
