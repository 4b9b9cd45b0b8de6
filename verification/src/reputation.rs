//! Reputation / faction standing system.
//!
//! Each faction has a base standing per player race. Standing increases
//! through quest turn-ins, mob kills, and repeatable activities.
//! Ref: AzerothCore `ReputationMgr.cpp`, `FactionEntry`.
use std::collections::HashMap;
use vstd::prelude::*;
use vstd::std_specs::iter::IteratorSpec;

verus! {

broadcast use vstd::std_specs::hash::group_hash_axioms;

/// Standing tiers with their numeric thresholds.
///
/// Each tier spans a range of reputation points. The total range
/// from Hated to Exalted is 84,000 points (retail WoW values).
#[derive(Debug, Clone, Copy, PartialEq, Eq, PartialOrd, Ord, Hash, Structural)]
pub enum Standing {
    Hated,
    Hostile,
    Unfriendly,
    Neutral,
    Friendly,
    Honored,
    Revered,
    Exalted,
}

/// Maximum reputation value.
pub const REP_MAX: i32 = 83_999;

/// Minimum reputation value.
pub const REP_MIN: i32 = 0;

/// Default neutral standing value.
pub const REP_NEUTRAL: i32 = 12_000;

/// Position of a tier in the order Hated < Hostile < ... < Exalted
/// (the order the enum declares, which its derived `Ord` follows).
pub open spec fn rank_of(s: Standing) -> int {
    match s {
        Standing::Hated => 0,
        Standing::Hostile => 1,
        Standing::Unfriendly => 2,
        Standing::Neutral => 3,
        Standing::Friendly => 4,
        Standing::Honored => 5,
        Standing::Revered => 6,
        Standing::Exalted => 7,
    }
}

/// Lowest reputation value of each tier (cumulative from Hated = 0).
///
/// Hated:      0 –  5,999
/// Hostile:    6,000 – 8,999
/// Unfriendly: 9,000 – 11,999
/// Neutral:    12,000 – 20,999
/// Friendly:   21,000 – 29,999
/// Honored:    30,000 – 41,999
/// Revered:    42,000 – 62,999
/// Exalted:    63,000 – 83,999
pub open spec fn threshold_of(s: Standing) -> int {
    match s {
        Standing::Hated => 0,
        Standing::Hostile => 6_000,
        Standing::Unfriendly => 9_000,
        Standing::Neutral => 12_000,
        Standing::Friendly => 21_000,
        Standing::Honored => 30_000,
        Standing::Revered => 42_000,
        Standing::Exalted => 63_000,
    }
}

/// First value past a tier: the next tier's threshold, or `REP_MAX + 1` for Exalted.
pub open spec fn tier_end_of(s: Standing) -> int {
    match s {
        Standing::Hated => 6_000,
        Standing::Hostile => 9_000,
        Standing::Unfriendly => 12_000,
        Standing::Neutral => 21_000,
        Standing::Friendly => 30_000,
        Standing::Honored => 42_000,
        Standing::Revered => 63_000,
        Standing::Exalted => REP_MAX + 1,
    }
}

/// A reputation value forced into `[REP_MIN, REP_MAX]`.
pub open spec fn clamp_rep(rep: int) -> int {
    if rep < REP_MIN {
        REP_MIN as int
    } else if rep > REP_MAX {
        REP_MAX as int
    } else {
        rep
    }
}

/// The tier whose range holds the clamped value.
pub open spec fn standing_of(rep: int) -> Standing {
    let c = clamp_rep(rep);
    if c >= 63_000 {
        Standing::Exalted
    } else if c >= 42_000 {
        Standing::Revered
    } else if c >= 30_000 {
        Standing::Honored
    } else if c >= 21_000 {
        Standing::Friendly
    } else if c >= 12_000 {
        Standing::Neutral
    } else if c >= 9_000 {
        Standing::Unfriendly
    } else if c >= 6_000 {
        Standing::Hostile
    } else {
        Standing::Hated
    }
}

/// The documented tiers: Hated up to 5,999 (and below 0), Hostile
/// 6,000–8,999, Unfriendly 9,000–11,999, Neutral 12,000–20,999, Friendly
/// 21,000–29,999, Honored 30,000–41,999, Revered 42,000–62,999, Exalted from
/// 63,000 (and above the maximum).
pub proof fn lemma_standing_table(v: int)
    ensures
        (standing_of(v) == Standing::Hated) <==> v < 6_000,
        (standing_of(v) == Standing::Hostile) <==> 6_000 <= v < 9_000,
        (standing_of(v) == Standing::Unfriendly) <==> 9_000 <= v < 12_000,
        (standing_of(v) == Standing::Neutral) <==> 12_000 <= v < 21_000,
        (standing_of(v) == Standing::Friendly) <==> 21_000 <= v < 30_000,
        (standing_of(v) == Standing::Honored) <==> 30_000 <= v < 42_000,
        (standing_of(v) == Standing::Revered) <==> 42_000 <= v < 63_000,
        (standing_of(v) == Standing::Exalted) <==> 63_000 <= v,
{
}

/// Every clamped value lies in the range of its own tier.
pub proof fn lemma_standing_brackets_value(rep: int)
    ensures
        threshold_of(standing_of(rep)) <= clamp_rep(rep) < tier_end_of(standing_of(rep)),
{
}

/// Standing never decreases as the reputation value grows.
pub proof fn lemma_standing_monotone(a: int, b: int)
    requires
        a <= b,
    ensures
        rank_of(standing_of(a)) <= rank_of(standing_of(b)),
{
}

/// A tier's threshold lies in that very tier.
pub proof fn lemma_threshold_is_in_tier(s: Standing)
    ensures
        standing_of(threshold_of(s)) == s,
{
}

/// Determine the standing tier for a raw reputation value.
pub fn standing_for_value(rep: i32) -> (s: Standing)
    ensures
        s == standing_of(rep as int),
{
    let clamped: i32 = if rep < REP_MIN {
        REP_MIN
    } else if rep > REP_MAX {
        REP_MAX
    } else {
        rep
    };
    if clamped >= 63_000 {
        Standing::Exalted
    } else if clamped >= 42_000 {
        Standing::Revered
    } else if clamped >= 30_000 {
        Standing::Honored
    } else if clamped >= 21_000 {
        Standing::Friendly
    } else if clamped >= 12_000 {
        Standing::Neutral
    } else if clamped >= 9_000 {
        Standing::Unfriendly
    } else if clamped >= 6_000 {
        Standing::Hostile
    } else {
        Standing::Hated
    }
}

/// Get the threshold (minimum rep value) for a standing tier.
pub fn threshold_for_standing(standing: Standing) -> (t: i32)
    ensures
        t == threshold_of(standing),
{
    match standing {
        Standing::Hated => 0,
        Standing::Hostile => 6_000,
        Standing::Unfriendly => 9_000,
        Standing::Neutral => 12_000,
        Standing::Friendly => 21_000,
        Standing::Honored => 30_000,
        Standing::Revered => 42_000,
        Standing::Exalted => 63_000,
    }
}

fn tier_end(standing: Standing) -> (t: i32)
    ensures
        t == tier_end_of(standing),
{
    match standing {
        Standing::Hated => 6_000,
        Standing::Hostile => 9_000,
        Standing::Unfriendly => 12_000,
        Standing::Neutral => 21_000,
        Standing::Friendly => 30_000,
        Standing::Honored => 42_000,
        Standing::Revered => 63_000,
        Standing::Exalted => REP_MAX + 1,
    }
}

fn standing_rank(s: Standing) -> (r: u8)
    ensures
        r == rank_of(s),
{
    match s {
        Standing::Hated => 0,
        Standing::Hostile => 1,
        Standing::Unfriendly => 2,
        Standing::Neutral => 3,
        Standing::Friendly => 4,
        Standing::Honored => 5,
        Standing::Revered => 6,
        Standing::Exalted => 7,
    }
}

/// Progress within the current tier: (current_into_tier, tier_size).
pub fn tier_progress(rep: i32) -> (r: (i32, i32))
    ensures
        r.0 == clamp_rep(rep as int) - threshold_of(standing_of(rep as int)),
        r.1 == tier_end_of(standing_of(rep as int)) - threshold_of(standing_of(rep as int)),
        0 <= r.0 < r.1,
{
    let clamped: i32 = if rep < REP_MIN {
        REP_MIN
    } else if rep > REP_MAX {
        REP_MAX
    } else {
        rep
    };
    let s = standing_for_value(rep);
    proof {
        lemma_standing_brackets_value(rep as int);
    }
    let start = threshold_for_standing(s);
    let end = tier_end(s);
    (clamped - start, end - start)
}

/// Source of a reputation change.
#[derive(Debug, Clone, Copy, PartialEq, Eq, Structural)]
pub enum RepGainSource {
    /// One-time quest completion reward.
    QuestTurnIn,
    /// Killing a mob associated with the faction.
    MobKill,
    /// Repeatable turn-in (e.g. cloth quartermaster, tokens).
    RepeatableTurnIn,
    /// Spillover from a related faction.
    Spillover,
    /// Direct GM/admin adjustment.
    Admin,
}

/// Result of applying a reputation change.
#[derive(Debug, Clone, Copy, PartialEq, Eq, Structural)]
pub struct RepChangeResult {
    /// Faction that changed.
    pub faction_id: u32,
    /// Rep value before the change.
    pub old_value: i32,
    /// Rep value after the change.
    pub new_value: i32,
    /// Standing before the change.
    pub old_standing: Standing,
    /// Standing after the change.
    pub new_standing: Standing,
}

impl RepChangeResult {
    /// Whether the standing tier changed.
    pub fn tier_changed(&self) -> (b: bool)
        ensures
            b == (self.old_standing != self.new_standing),
    {
        self.old_standing != self.new_standing
    }

    /// The actual amount gained (may differ from requested due to clamping).
    pub fn actual_change(&self) -> (d: i32)
        requires
            i32::MIN <= self.new_value - self.old_value <= i32::MAX,
        ensures
            d == self.new_value - self.old_value,
    {
        self.new_value - self.old_value
    }
}

/// Display info for a faction in the reputation panel.
#[derive(Debug, Clone, Copy, PartialEq, Eq)]
pub struct FactionDisplayEntry {
    pub faction_id: u32,
    pub standing: Standing,
    pub value: i32,
    /// Progress within the current tier: (current, max).
    pub progress: (i32, i32),
}

/// The display entry for a faction holding reputation value `v`.
pub open spec fn display_of(faction_id: u32, v: i32) -> FactionDisplayEntry {
    let s = standing_of(v as int);
    FactionDisplayEntry {
        faction_id,
        standing: s,
        value: v,
        progress: (
            (clamp_rep(v as int) - threshold_of(s)) as i32,
            (tier_end_of(s) - threshold_of(s)) as i32,
        ),
    }
}

/// Keeps every faction id but `faction_id`.
pub open spec fn other_faction(faction_id: u32) -> spec_fn(u32) -> bool {
    |f: u32| f != faction_id
}

/// Reputation value stored for a faction in `m`; neutral where none is stored.
pub open spec fn stored_value(m: Map<u32, i32>, faction_id: u32) -> i32 {
    if m.contains_key(faction_id) {
        m[faction_id]
    } else {
        REP_NEUTRAL
    }
}

/// The values after applying each `(faction, amount)` change in order,
/// each clamped into `[REP_MIN, REP_MAX]`.
pub open spec fn apply_changes(m: Map<u32, i32>, changes: Seq<(u32, i32)>) -> Map<u32, i32>
    decreases changes.len(),
{
    if changes.len() == 0 {
        m
    } else {
        let prev = apply_changes(m, changes.drop_last());
        let (f, a) = changes.last();
        prev.insert(f, clamp_rep(stored_value(prev, f) + a) as i32)
    }
}

/// The report of one change `(faction, amount)` applied to the values `m`.
pub open spec fn change_result(m: Map<u32, i32>, change: (u32, i32)) -> RepChangeResult {
    let old_value = stored_value(m, change.0);
    let new_value = clamp_rep(old_value + change.1) as i32;
    RepChangeResult {
        faction_id: change.0,
        old_value,
        new_value,
        old_standing: standing_of(old_value as int),
        new_standing: standing_of(new_value as int),
    }
}

/// Per-character reputation tracker across all factions.
#[derive(Debug, Clone, PartialEq)]
pub struct CharacterReputation {
    /// faction_id → current reputation value.
    values: HashMap<u32, i32>,
    /// Factions shown in the reputation panel (player-selected).
    panel: Vec<u32>,
    /// The single faction displayed on the XP/rep bar (if any).
    watched: Option<u32>,
}

impl Default for CharacterReputation {
    fn default() -> (r: Self)
        ensures
            r.wf(),
            r.value_map() == Map::<u32, i32>::empty(),
            r.tracked_list() == Seq::<u32>::empty(),
            r.watched_spec() is None,
    {
        CharacterReputation { values: HashMap::new(), panel: Vec::new(), watched: None }
    }
}

/// The map after inserting each `(faction, value)` pair in order (later pairs win).
pub open spec fn insert_all(m: Map<u32, i32>, pairs: Seq<(u32, i32)>) -> Map<u32, i32>
    decreases pairs.len(),
{
    if pairs.len() == 0 {
        m
    } else {
        insert_all(m, pairs.drop_last()).insert(pairs.last().0, pairs.last().1)
    }
}

/// Base reputation for `race` from a faction's `(race, value)` table:
/// the first entry for the race, or neutral (12,000) if it has none.
pub open spec fn base_rep_spec(base_standing: Seq<(u8, i32)>, race: u8) -> i32
    decreases base_standing.len(),
{
    if base_standing.len() == 0 {
        REP_NEUTRAL
    } else if base_standing[0].0 == race {
        base_standing[0].1
    } else {
        base_rep_spec(base_standing.drop_first(), race)
    }
}

/// The first value for `race` in a faction's `(race, value)` table, or neutral.
fn base_rep_in(base_standing: &[(u8, i32)], race: u8) -> (v: i32)
    ensures
        v == base_rep_spec(base_standing@, race),
{
    let mut i: usize = 0;
    proof {
        assert(base_standing@.subrange(0, base_standing@.len() as int) =~= base_standing@);
    }
    while i < base_standing.len()
        invariant
            i <= base_standing@.len(),
            base_rep_spec(base_standing@, race) == base_rep_spec(
                base_standing@.subrange(i as int, base_standing@.len() as int),
                race,
            ),
        decreases base_standing.len() - i,
    {
        let (r, v) = base_standing[i];
        let ghost rest = base_standing@.subrange(i as int, base_standing@.len() as int);
        proof {
            assert(rest[0] == base_standing@[i as int]);
            assert(rest.drop_first() =~= base_standing@.subrange(i + 1, base_standing@.len() as int));
        }
        if r == race {
            return v;
        }
        i = i + 1;
    }
    proof {
        assert(base_standing@.subrange(i as int, base_standing@.len() as int).len() == 0);
    }
    REP_NEUTRAL
}

/// A spillover rule: gaining rep with one faction affects another.
#[derive(Debug, Clone, Copy, PartialEq, Eq, Structural)]
pub struct SpilloverRule {
    /// Target faction that receives the spillover.
    pub faction_id: u32,
    /// Bit pattern of the `f32` fraction of the original gain applied to the
    /// target (positive = allied, e.g. 0.25; negative = enemy, e.g. -0.5).
    pub rate_bits: u32,
}

/// Static definition of a faction.
#[derive(Debug, Clone, PartialEq)]
pub struct FactionData {
    /// Unique faction ID.
    pub id: u32,
    /// Faction name (e.g. "Stormwind", "Orgrimmar").
    pub name: String,
    /// Base reputation value per player race.
    /// Races not in the table start at neutral (12,000).
    pub base_standing: Vec<(u8, i32)>,
    /// Spillover rules: rep changes with this faction cascade to others.
    pub spillover: Vec<SpilloverRule>,
}

impl FactionData {
    /// Get the base reputation value for a race.
    /// Returns neutral (12,000) if the race has no specific entry.
    pub fn base_rep_for_race(&self, race: u8) -> (v: i32)
        ensures
            v == base_rep_spec(self.base_standing@, race),
    {
        base_rep_in(self.base_standing.as_slice(), race)
    }

    /// Get the starting standing tier for a race.
    pub fn starting_standing(&self, race: u8) -> (s: Standing)
        ensures
            s == standing_of(base_rep_spec(self.base_standing@, race) as int),
    {
        standing_for_value(self.base_rep_for_race(race))
    }
}

/// Whether some faction in `s` has the given id.
pub open spec fn has_faction(s: Seq<FactionData>, id: u32) -> bool {
    exists|k: int| 0 <= k < s.len() && (#[trigger] s[k]).id == id
}

/// The position of the faction with the given id (meaningful when there is one).
pub open spec fn faction_pos(s: Seq<FactionData>, id: u32) -> int {
    choose|k: int| 0 <= k < s.len() && (#[trigger] s[k]).id == id
}

/// No two factions in `s` share an id.
pub open spec fn ids_unique(s: Seq<FactionData>) -> bool {
    forall|i: int, j: int| 0 <= i < j < s.len() ==> (#[trigger] s[i]).id != (#[trigger] s[j]).id
}

/// `s` without the faction that has the given id (unchanged if there is none).
pub open spec fn without_faction(s: Seq<FactionData>, id: u32) -> Seq<FactionData> {
    if has_faction(s, id) {
        s.remove(faction_pos(s, id))
    } else {
        s
    }
}

/// Position `k` holds the first faction of `s` named `name`.
pub open spec fn first_named(s: Seq<FactionData>, name: Seq<char>, k: int) -> bool {
    &&& 0 <= k < s.len()
    &&& s[k].name@ == name
    &&& forall|j: int| 0 <= j < k ==> (#[trigger] s[j]).name@ != name
}

/// Registry of all faction definitions, in the order they were added.
#[derive(Debug, Clone, PartialEq)]
pub struct FactionRegistry {
    factions: Vec<FactionData>,
}

impl FactionRegistry {
    /// The registered factions, oldest first.
    pub closed spec fn entries(&self) -> Seq<FactionData> {
        self.factions@
    }

    /// No id is registered twice.
    pub open spec fn wf(&self) -> bool {
        ids_unique(self.entries())
    }

    pub fn new() -> (r: Self)
        ensures
            r.wf(),
            r.entries() == Seq::<FactionData>::empty(),
    {
        FactionRegistry { factions: Vec::new() }
    }

    /// Register a faction, replacing any faction with the same id; the new
    /// definition goes last.
    pub fn add(&mut self, faction: FactionData)
        requires
            old(self).wf(),
        ensures
            final(self).wf(),
            final(self).entries() == without_faction(old(self).entries(), faction.id).push(faction),
    {
        let id = faction.id;
        let mut i: usize = 0;
        while i < self.factions.len() && self.factions[i].id != id
            invariant
                i <= self.factions@.len(),
                self.factions@ == old(self).factions@,
                ids_unique(self.factions@),
                forall|k: int| 0 <= k < i ==> (#[trigger] self.factions@[k]).id != id,
            decreases self.factions.len() - i,
        {
            i = i + 1;
        }
        let ghost s = self.factions@;
        if i < self.factions.len() {
            proof {
                let p = faction_pos(s, id);
                assert(s[i as int].id == id);
                assert(has_faction(s, id));
                assert(s[p].id == id);
                assert(p == i) by {
                    if p < i {
                        assert(s[p].id != id);
                    } else if p > i {
                        assert(s[i as int].id != s[p].id);
                    }
                }
            }
            self.factions.remove(i);
        } else {
            proof {
                assert(!has_faction(s, id));
            }
        }
        let ghost kept = self.factions@;
        proof {
            assert(kept == without_faction(s, id));
            assert forall|k: int| 0 <= k < kept.len() implies (#[trigger] kept[k]).id != id by {
                if has_faction(s, id) {
                    if k < i {
                        assert(kept[k] == s[k]);
                    } else {
                        assert(kept[k] == s[k + 1]);
                        assert(s[i as int].id != s[k + 1].id);
                    }
                }
            }
            assert forall|a: int, b: int| 0 <= a < b < kept.len() implies (#[trigger] kept[a]).id
                != (#[trigger] kept[b]).id by {
                if has_faction(s, id) {
                    let a2 = if a < i { a } else { a + 1 };
                    let b2 = if b < i { b } else { b + 1 };
                    assert(kept[a] == s[a2]);
                    assert(kept[b] == s[b2]);
                    assert(s[a2].id != s[b2].id);
                } else {
                    assert(s[a].id != s[b].id);
                }
            }
        }
        self.factions.push(faction);
        proof {
            let t = self.factions@;
            assert forall|a: int, b: int| 0 <= a < b < t.len() implies (#[trigger] t[a]).id
                != (#[trigger] t[b]).id by {
                if b == t.len() - 1 {
                    assert(t[a] == kept[a]);
                } else {
                    assert(t[a] == kept[a]);
                    assert(t[b] == kept[b]);
                }
            }
        }
    }

    /// Look up a faction by ID.
    pub fn get(&self, id: u32) -> (r: Option<&FactionData>)
        requires
            self.wf(),
        ensures
            r == (if has_faction(self.entries(), id) {
                Some(&self.entries()[faction_pos(self.entries(), id)])
            } else {
                None
            }),
    {
        let mut i: usize = 0;
        while i < self.factions.len()
            invariant
                i <= self.factions@.len(),
                ids_unique(self.factions@),
                forall|k: int| 0 <= k < i ==> (#[trigger] self.factions@[k]).id != id,
            decreases self.factions.len() - i,
        {
            if self.factions[i].id == id {
                proof {
                    let s = self.factions@;
                    assert(has_faction(s, id));
                    let p = faction_pos(s, id);
                    assert(s[p].id == id);
                    assert(p == i) by {
                        if p < i {
                            assert(s[p].id != id);
                        } else if p > i {
                            assert(s[i as int].id != s[p].id);
                        }
                    }
                }
                return Some(&self.factions[i]);
            }
            i = i + 1;
        }
        None
    }

    /// Look up a faction by name: the first one registered under that name.
    pub fn find_by_name(&self, name: &str) -> (r: Option<&FactionData>)
        ensures
            match r {
                Some(f) => exists|k: int|
                    first_named(self.entries(), name@, k) && *f == #[trigger] self.entries()[k],
                None => forall|k: int|
                    0 <= k < self.entries().len() ==> (#[trigger] self.entries()[k]).name@ != name@,
            },
    {
        let key = name.to_owned();
        let mut i: usize = 0;
        while i < self.factions.len()
            invariant
                i <= self.factions@.len(),
                key@ == name@,
                forall|k: int| 0 <= k < i ==> (#[trigger] self.factions@[k]).name@ != name@,
            decreases self.factions.len() - i,
        {
            if self.factions[i].name == key {
                proof {
                    assert(first_named(self.entries(), name@, i as int));
                    assert(self.entries()[i as int] == self.factions@[i as int]);
                }
                return Some(&self.factions[i]);
            }
            i = i + 1;
        }
        None
    }

    /// The faction at a position in registration order.
    fn get_at(&self, index: usize) -> (f: &FactionData)
        requires
            index < self.entries().len(),
        ensures
            *f == self.entries()[index as int],
    {
        &self.factions[index]
    }

    /// Number of registered factions.
    pub fn len(&self) -> (n: usize)
        ensures
            n == self.entries().len(),
    {
        self.factions.len()
    }

    /// Whether the registry is empty.
    pub fn is_empty(&self) -> (b: bool)
        ensures
            b == (self.entries().len() == 0),
    {
        self.factions.len() == 0
    }

    /// Iterate over all factions, oldest first.
    pub fn iter(&self) -> (it: std::slice::Iter<'_, FactionData>)
        ensures
            it.remaining() == self.entries().as_ref(),
    {
        proof {
            broadcast use vstd::std_specs::slice::axiom_spec_slice_iter;
        }
        self.factions.as_slice().iter()
    }
}

impl Default for FactionRegistry {
    fn default() -> (r: Self)
        ensures
            r.wf(),
            r.entries() == Seq::<FactionData>::empty(),
    {
        FactionRegistry::new()
    }
}

/// Bit pattern of `0.25_f32`: an allied spillover of a quarter of the gain.
pub const RATE_QUARTER_BITS: u32 = 0x3E80_0000;

/// Bit pattern of `-0.5_f32`: an enemy spillover losing half of the gain.
pub const RATE_MINUS_HALF_BITS: u32 = 0xBF00_0000;

/// Minimal built-in faction registry used by the gameplay server today:
/// Stormwind (72, spilling a quarter to Ironforge and minus a half to
/// Orgrimmar), Orgrimmar (76) and Ironforge (47), in that order.
pub fn default_faction_registry() -> (r: FactionRegistry)
    ensures
        r.wf(),
        r.entries().len() == 3,
        r.entries()[0].id == 72,
        r.entries()[0].name@ == "Stormwind"@,
        r.entries()[0].base_standing@ == seq![(1u8, 21_000i32), (2u8, 0i32)],
        r.entries()[0].spillover@ == seq![
            SpilloverRule { faction_id: 47, rate_bits: RATE_QUARTER_BITS },
            SpilloverRule { faction_id: 76, rate_bits: RATE_MINUS_HALF_BITS },
        ],
        r.entries()[1].id == 76,
        r.entries()[1].name@ == "Orgrimmar"@,
        r.entries()[1].base_standing@ == seq![(2u8, 21_000i32), (1u8, 0i32)],
        r.entries()[1].spillover@.len() == 0,
        r.entries()[2].id == 47,
        r.entries()[2].name@ == "Ironforge"@,
        r.entries()[2].base_standing@ == seq![(1u8, 21_000i32), (2u8, 0i32)],
        r.entries()[2].spillover@.len() == 0,
{
    let mut registry = FactionRegistry::new();
    registry.add(FactionData {
        id: 72,
        name: "Stormwind".to_owned(),
        base_standing: vec![(1, 21_000), (2, 0)],
        spillover: vec![
            SpilloverRule { faction_id: 47, rate_bits: RATE_QUARTER_BITS },
            SpilloverRule { faction_id: 76, rate_bits: RATE_MINUS_HALF_BITS },
        ],
    });
    registry.add(FactionData {
        id: 76,
        name: "Orgrimmar".to_owned(),
        base_standing: vec![(2, 21_000), (1, 0)],
        spillover: Vec::new(),
    });
    registry.add(FactionData {
        id: 47,
        name: "Ironforge".to_owned(),
        base_standing: vec![(1, 21_000), (2, 0)],
        spillover: Vec::new(),
    });
    proof {
        let e = registry.entries();
        assert(e.len() == 3);
    }
    registry
}

/// The `(faction, base value for race)` pairs of a registry's factions, in order.
pub open spec fn race_bases(factions: Seq<FactionData>, race: u8) -> Seq<(u32, i32)> {
    factions.map_values(|f: FactionData| (f.id, base_rep_spec(f.base_standing@, race)))
}

impl CharacterReputation {
    /// Reputation holding the given `(faction, value)` pairs (later pairs win).
    fn from_base_values(bases: &[(u32, i32)]) -> (r: Self)
        ensures
            r.wf(),
            r.value_map() == insert_all(Map::empty(), bases@),
            r.tracked_list() == Seq::<u32>::empty(),
            r.watched_spec() is None,
    {
        let mut values: HashMap<u32, i32> = HashMap::new();
        let mut i: usize = 0;
        while i < bases.len()
            invariant
                i <= bases@.len(),
                values@ == insert_all(Map::empty(), bases@.take(i as int)),
            decreases bases.len() - i,
        {
            let (f, v) = bases[i];
            proof {
                assert(bases@.take(i + 1).drop_last() =~= bases@.take(i as int));
                assert(bases@.take(i + 1).last() == bases@[i as int]);
            }
            values.insert(f, v);
            i = i + 1;
        }
        proof {
            assert(bases@.take(i as int) =~= bases@);
        }
        CharacterReputation { values, panel: Vec::new(), watched: None }
    }

    /// Initialize reputation for a character based on their race: each
    /// registered faction starts at its base value for the race.
    pub fn new_for_race(registry: &FactionRegistry, race: u8) -> (r: Self)
        ensures
            r.wf(),
            r.value_map() == insert_all(Map::empty(), race_bases(registry.entries(), race)),
            r.tracked_list() == Seq::<u32>::empty(),
            r.watched_spec() is None,
    {
        let mut bases: Vec<(u32, i32)> = Vec::new();
        let ghost all = registry.entries();
        let mut i: usize = 0;
        while i < registry.len()
            invariant
                i <= all.len(),
                registry.entries() == all,
                bases@ == race_bases(all.take(i as int), race),
            decreases all.len() - i,
        {
            let f = &registry.get_at(i);
            bases.push((f.id, f.base_rep_for_race(race)));
            proof {
                assert(all.take(i + 1) =~= all.take(i as int).push(all[i as int]));
                assert(race_bases(all.take(i + 1), race) =~= race_bases(all.take(i as int), race).push(
                    (all[i as int].id, base_rep_spec(all[i as int].base_standing@, race)),
                ));
            }
            i = i + 1;
        }
        proof {
            assert(all.take(i as int) =~= all);
        }
        CharacterReputation::from_base_values(bases.as_slice())
    }

    /// Stored reputation value per faction.
    pub closed spec fn value_map(&self) -> Map<u32, i32> {
        self.values@
    }

    /// Tracked factions, in the order they were added.
    pub closed spec fn tracked_list(&self) -> Seq<u32> {
        self.panel@
    }

    /// The watched faction.
    pub closed spec fn watched_spec(&self) -> Option<u32> {
        self.watched
    }

    /// The panel list holds no faction twice, and a watched faction is on it.
    pub open spec fn wf(&self) -> bool {
        &&& self.tracked_list().no_duplicates()
        &&& (self.watched_spec() matches Some(w) ==> self.tracked_list().contains(w))
    }

    /// Reputation value of a faction; neutral where none is stored.
    pub open spec fn value_of(&self, faction_id: u32) -> i32 {
        if self.value_map().contains_key(faction_id) {
            self.value_map()[faction_id]
        } else {
            REP_NEUTRAL
        }
    }

    /// Get the raw reputation value for a faction.
    /// Returns neutral if the faction hasn't been encountered.
    pub fn get_value(&self, faction_id: u32) -> (v: i32)
        ensures
            v == self.value_of(faction_id),
    {
        match self.values.get(&faction_id) {
            Some(v) => *v,
            None => REP_NEUTRAL,
        }
    }

    /// Get the standing tier for a faction.
    pub fn get_standing(&self, faction_id: u32) -> (s: Standing)
        ensures
            s == standing_of(self.value_of(faction_id) as int),
    {
        standing_for_value(self.get_value(faction_id))
    }

    /// Apply a reputation gain or loss. Returns the change result.
    pub fn modify_rep(&mut self, faction_id: u32, amount: i32, _source: RepGainSource) -> (r:
        RepChangeResult)
        requires
            old(self).wf(),
            i32::MIN <= old(self).value_of(faction_id) + amount <= i32::MAX,
        ensures
            final(self).wf(),
            final(self).value_map() == old(self).value_map().insert(
                faction_id,
                r.new_value,
            ),
            final(self).tracked_list() == old(self).tracked_list(),
            final(self).watched_spec() == old(self).watched_spec(),
            r.faction_id == faction_id,
            r.old_value == old(self).value_of(faction_id),
            r.new_value == clamp_rep(old(self).value_of(faction_id) + amount),
            r.old_standing == standing_of(r.old_value as int),
            r.new_standing == standing_of(r.new_value as int),
    {
        let old_value = self.get_value(faction_id);
        let sum = old_value + amount;
        let new_value: i32 = if sum < REP_MIN {
            REP_MIN
        } else if sum > REP_MAX {
            REP_MAX
        } else {
            sum
        };
        self.values.insert(faction_id, new_value);
        RepChangeResult {
            faction_id,
            old_value,
            new_value,
            old_standing: standing_for_value(old_value),
            new_standing: standing_for_value(new_value),
        }
    }

    /// Gain reputation with a faction (positive amount).
    pub fn gain_rep(&mut self, faction_id: u32, amount: i32, source: RepGainSource) -> (r:
        RepChangeResult)
        requires
            old(self).wf(),
            amount != i32::MIN,
            old(self).value_of(faction_id) + (if amount < 0 { -amount } else { amount as int })
                <= i32::MAX,
        ensures
            final(self).wf(),
            final(self).value_map() == old(self).value_map().insert(
                faction_id,
                r.new_value,
            ),
            final(self).tracked_list() == old(self).tracked_list(),
            final(self).watched_spec() == old(self).watched_spec(),
            r.faction_id == faction_id,
            r.old_value == old(self).value_of(faction_id),
            r.new_value == clamp_rep(
                old(self).value_of(faction_id) + (if amount < 0 { -amount } else { amount as int }),
            ),
            r.old_standing == standing_of(r.old_value as int),
            r.new_standing == standing_of(r.new_value as int),
    {
        let magnitude: i32 = if amount < 0 { -amount } else { amount };
        self.modify_rep(faction_id, magnitude, source)
    }

    /// Lose reputation with a faction (negative amount).
    pub fn lose_rep(&mut self, faction_id: u32, amount: i32, source: RepGainSource) -> (r:
        RepChangeResult)
        requires
            old(self).wf(),
            amount != i32::MIN,
            i32::MIN <= old(self).value_of(faction_id) - (if amount < 0 { -amount } else { amount as int }),
        ensures
            final(self).wf(),
            final(self).value_map() == old(self).value_map().insert(
                faction_id,
                r.new_value,
            ),
            final(self).tracked_list() == old(self).tracked_list(),
            final(self).watched_spec() == old(self).watched_spec(),
            r.faction_id == faction_id,
            r.old_value == old(self).value_of(faction_id),
            r.new_value == clamp_rep(
                old(self).value_of(faction_id) - (if amount < 0 { -amount } else { amount as int }),
            ),
            r.old_standing == standing_of(r.old_value as int),
            r.new_standing == standing_of(r.new_value as int),
    {
        let magnitude: i32 = if amount < 0 { -amount } else { amount };
        self.modify_rep(faction_id, -magnitude, source)
    }

    /// Set reputation to an exact value (admin/debug).
    pub fn set_rep(&mut self, faction_id: u32, value: i32)
        requires
            old(self).wf(),
        ensures
            final(self).wf(),
            final(self).value_map() == old(self).value_map().insert(
                faction_id,
                clamp_rep(value as int) as i32,
            ),
            final(self).tracked_list() == old(self).tracked_list(),
            final(self).watched_spec() == old(self).watched_spec(),
    {
        let clamped: i32 = if value < REP_MIN {
            REP_MIN
        } else if value > REP_MAX {
            REP_MAX
        } else {
            value
        };
        self.values.insert(faction_id, clamped);
    }

    /// Number of factions with a stored reputation value.
    pub fn faction_count(&self) -> (n: usize)
        ensures
            n == self.value_map().len(),
    {
        self.values.len()
    }

    /// All faction IDs this character has any reputation value for,
    /// in the map's own (unspecified) order.
    pub fn all_factions(&self) -> (ids: Vec<u32>)
        ensures
            ids@.to_set() == self.value_map().dom(),
            ids@.no_duplicates(),
            ids@.len() == self.value_map().len(),
    {
        let ghost keys = vstd::std_specs::hash::spec_keys_iter(&self.values).remaining();
        let mut ids: Vec<u32> = Vec::new();
        for k in it: self.values.keys()
            invariant
                it.seq() == keys,
                ids@ == keys.take(it.index()).unref(),
        {
            proof {
                assert(keys.take(it.index() + 1).unref() =~= keys.take(it.index()).unref().push(*k));
            }
            ids.push(*k);
        }
        proof {
            assert(keys.take(keys.len() as int) =~= keys);
        }
        ids
    }

    /// Whether the character has reached a standing with a faction.
    pub fn has_standing(&self, faction_id: u32, required: Standing) -> (b: bool)
        ensures
            b == (rank_of(standing_of(self.value_of(faction_id) as int)) >= rank_of(required)),
    {
        standing_rank(self.get_standing(faction_id)) >= standing_rank(required)
    }

    // --- Tracked / watched factions (UI display) ---

    /// Add a faction to the tracked list (shown in rep panel).
    /// A faction already on the list stays where it is.
    pub fn track(&mut self, faction_id: u32)
        requires
            old(self).wf(),
        ensures
            final(self).wf(),
            final(self).tracked_list() == (if old(self).tracked_list().contains(faction_id) {
                old(self).tracked_list()
            } else {
                old(self).tracked_list().push(faction_id)
            }),
            final(self).value_map() == old(self).value_map(),
            final(self).watched_spec() == old(self).watched_spec(),
    {
        self.push_tracked_faction(faction_id);
    }

    fn push_tracked_faction(&mut self, faction_id: u32)
        requires
            old(self).wf(),
        ensures
            final(self).wf(),
            final(self).tracked_list() == (if old(self).tracked_list().contains(faction_id) {
                old(self).tracked_list()
            } else {
                old(self).tracked_list().push(faction_id)
            }),
            final(self).value_map() == old(self).value_map(),
            final(self).watched_spec() == old(self).watched_spec(),
    {
        if self.is_tracked(faction_id) {
            return;
        }
        self.panel.push(faction_id);
        proof {
            assert forall|i: int, j: int|
                0 <= i < j < self.panel@.len() implies self.panel@[i] != self.panel@[j] by {
                if j == self.panel@.len() - 1 {
                    assert(old(self).panel@.contains(self.panel@[i]));
                }
            }
            if let Some(w) = self.watched {
                assert(old(self).panel@.contains(w));
                let k = choose|k: int| 0 <= k < old(self).panel@.len() && old(self).panel@[k] == w;
                assert(self.panel@[k] == w);
            }
        }
    }

    /// Remove a faction from the tracked list; a watched faction that
    /// leaves the list is no longer watched.
    pub fn untrack(&mut self, faction_id: u32)
        requires
            old(self).wf(),
        ensures
            final(self).wf(),
            final(self).tracked_list() == old(self).tracked_list().filter(
                other_faction(faction_id),
            ),
            final(self).value_map() == old(self).value_map(),
            final(self).watched_spec() == (if old(self).watched_spec() == Some(faction_id) {
                None
            } else {
                old(self).watched_spec()
            }),
    {
        let ghost before = self.panel@;
        let mut kept: Vec<u32> = Vec::new();
        let mut i: usize = 0;
        while i < self.panel.len()
            invariant
                i <= self.panel.len(),
                self.panel@ == before,
                before.no_duplicates(),
                kept@ == before.take(i as int).filter(other_faction(faction_id)),
                kept@.no_duplicates(),
            decreases self.panel.len() - i,
        {
            proof {
                reveal(Seq::filter);
                assert(before.take(i + 1).drop_last() =~= before.take(i as int));
                assert(before.take(i + 1).last() == before[i as int]);
            }
            let f = self.panel[i];
            if f != faction_id {
                proof {
                    if kept@.contains(f) {
                        before.take(i as int).lemma_filter_contains_rev(other_faction(faction_id), f);
                        let k = choose|k: int| 0 <= k < i && #[trigger] before.take(i as int)[k] == f;
                        assert(before[k] == before[i as int]);
                    }
                }
                kept.push(f);
            }
            i = i + 1;
        }
        proof {
            assert(before.take(i as int) =~= before);
        }
        self.panel = kept;
        if self.watched == Some(faction_id) {
            self.watched = None;
        }
        proof {
            if let Some(w) = self.watched {
                let k = choose|k: int| 0 <= k < before.len() && before[k] == w;
                before.lemma_filter_contains(other_faction(faction_id), k);
            }
        }
    }

    /// Whether a faction is in the tracked list.
    pub fn is_tracked(&self, faction_id: u32) -> (b: bool)
        ensures
            b == self.tracked_list().contains(faction_id),
    {
        let mut i: usize = 0;
        while i < self.panel.len()
            invariant
                i <= self.panel.len(),
                forall|k: int| 0 <= k < i ==> self.panel@[k] != faction_id,
            decreases self.panel.len() - i,
        {
            if self.panel[i] == faction_id {
                return true;
            }
            i = i + 1;
        }
        false
    }

    /// The tracked faction list.
    pub fn tracked_factions(&self) -> (ids: &[u32])
        ensures
            ids@ == self.tracked_list(),
    {
        self.panel.as_slice()
    }

    /// Set the watched faction (shown on the rep/XP bar).
    /// Automatically tracks it if not already tracked.
    pub fn watch(&mut self, faction_id: u32)
        requires
            old(self).wf(),
        ensures
            final(self).wf(),
            final(self).tracked_list() == (if old(self).tracked_list().contains(faction_id) {
                old(self).tracked_list()
            } else {
                old(self).tracked_list().push(faction_id)
            }),
            final(self).value_map() == old(self).value_map(),
            final(self).watched_spec() == Some(faction_id),
    {
        self.track(faction_id);
        self.watched = Some(faction_id);
        proof {
            if !old(self).panel@.contains(faction_id) {
                assert(self.panel@[self.panel@.len() - 1] == faction_id);
            }
        }
    }

    /// Clear the watched faction.
    pub fn unwatch(&mut self)
        requires
            old(self).wf(),
        ensures
            final(self).wf(),
            final(self).tracked_list() == old(self).tracked_list(),
            final(self).value_map() == old(self).value_map(),
            final(self).watched_spec() is None,
    {
        self.watched = None;
    }

    /// The currently watched faction, if any.
    pub fn watched_faction(&self) -> (w: Option<u32>)
        ensures
            w == self.watched_spec(),
    {
        self.watched
    }

    /// Build display entries for all tracked factions, in list order.
    pub fn display_tracked(&self) -> (entries: Vec<FactionDisplayEntry>)
        ensures
            entries@.len() == self.tracked_list().len(),
            forall|i: int|
                0 <= i < entries@.len() ==> entries@[i] == display_of(
                    self.tracked_list()[i],
                    self.value_of(self.tracked_list()[i]),
                ),
    {
        let mut entries: Vec<FactionDisplayEntry> = Vec::new();
        let mut i: usize = 0;
        while i < self.panel.len()
            invariant
                i <= self.panel.len(),
                entries@.len() == i,
                forall|k: int|
                    0 <= k < i ==> entries@[k] == display_of(
                        self.panel@[k],
                        self.value_of(self.panel@[k]),
                    ),
            decreases self.panel.len() - i,
        {
            let e = self.display_entry(self.panel[i]);
            entries.push(e);
            i = i + 1;
        }
        entries
    }

    /// Build a display entry for a single faction.
    pub fn display_entry(&self, faction_id: u32) -> (e: FactionDisplayEntry)
        ensures
            e == display_of(faction_id, self.value_of(faction_id)),
    {
        let value = self.get_value(faction_id);
        FactionDisplayEntry {
            faction_id,
            standing: standing_for_value(value),
            value,
            progress: tier_progress(value),
        }
    }

    /// Every stored value lies in `[REP_MIN, REP_MAX]`.
    pub open spec fn values_in_range(&self) -> bool {
        forall|f: u32|
            #[trigger] self.value_map().contains_key(f) ==> REP_MIN <= self.value_map()[f]
                <= REP_MAX
    }

    /// Gain rep with spillover to allied/enemy factions.
    ///
    /// Applies the primary gain (of `|amount|`), then each spillover change
    /// `(faction, amount)` in order, each clamped like `modify_rep`.
    /// Returns all changes (primary first).
    pub fn gain_rep_with_spillover(
        &mut self,
        faction_id: u32,
        amount: i32,
        source: RepGainSource,
        spillovers: &[(u32, i32)],
    ) -> (results: Vec<RepChangeResult>)
        requires
            old(self).wf(),
            old(self).values_in_range(),
            amount != i32::MIN,
            (if amount < 0 { -amount } else { amount as int }) <= i32::MAX - REP_MAX,
            forall|i: int|
                0 <= i < spillovers@.len() ==> -(i32::MAX - REP_MAX) <= (#[trigger] spillovers@[i]).1
                    <= i32::MAX - REP_MAX,
        ensures
            final(self).wf(),
            final(self).values_in_range(),
            final(self).tracked_list() == old(self).tracked_list(),
            final(self).watched_spec() == old(self).watched_spec(),
            ({
                let changes = seq![(faction_id, (if amount < 0 { -amount } else { amount as int }) as i32)]
                    + spillovers@;
                &&& results@.len() == changes.len()
                &&& final(self).value_map() == apply_changes(old(self).value_map(), changes)
                &&& forall|i: int|
                    0 <= i < changes.len() ==> #[trigger] results@[i] == change_result(
                        apply_changes(old(self).value_map(), changes.take(i)),
                        changes[i],
                    )
            }),
    {
        let ghost start = self.value_map();
        let primary = self.gain_rep(faction_id, amount, source);
        let ghost magnitude: i32 = (if amount < 0 { -amount } else { amount as int }) as i32;
        let ghost changes = seq![(faction_id, magnitude)] + spillovers@;
        proof {
            assert(changes.take(0) =~= Seq::<(u32, i32)>::empty());
            assert(changes.take(1) =~= seq![(faction_id, magnitude)]);
            assert(changes.take(1).drop_last() =~= changes.take(0));
            assert(changes.take(1).last() == (faction_id, magnitude));
            assert(apply_changes(start, changes.take(0)) == start);
            assert(apply_changes(start, changes.take(1)) == start.insert(
                faction_id,
                clamp_rep(stored_value(start, faction_id) + magnitude) as i32,
            ));
        }
        let mut results: Vec<RepChangeResult> = Vec::new();
        results.push(primary);
        let mut i: usize = 0;
        while i < spillovers.len()
            invariant
                i <= spillovers@.len(),
                changes == seq![(faction_id, magnitude)] + spillovers@,
                self.wf(),
                self.values_in_range(),
                self.tracked_list() == old(self).tracked_list(),
                self.watched_spec() == old(self).watched_spec(),
                self.value_map() == apply_changes(start, changes.take(i + 1)),
                results@.len() == i + 1,
                forall|k: int|
                    0 <= k < i + 1 ==> #[trigger] results@[k] == change_result(
                        apply_changes(start, changes.take(k)),
                        changes[k],
                    ),
                forall|k: int|
                    0 <= k < spillovers@.len() ==> -(i32::MAX - REP_MAX) <= (
                    #[trigger] spillovers@[k]).1 <= i32::MAX - REP_MAX,
            decreases spillovers@.len() - i,
        {
            let (target, spill) = spillovers[i];
            proof {
                assert(changes[i + 1] == spillovers@[i as int]);
                assert(changes.take(i + 2).drop_last() =~= changes.take(i + 1));
                assert(changes.take(i + 2).last() == changes[i + 1]);
                if self.value_map().contains_key(target) {
                    assert(REP_MIN <= self.value_map()[target] <= REP_MAX);
                }
            }
            let r = self.modify_rep(target, spill, RepGainSource::Spillover);
            results.push(r);
            i = i + 1;
        }
        proof {
            assert(changes.take(spillovers@.len() + 1int) =~= changes);
        }
        results
    }
}

// --- Mob kill rep diminishing returns ---

/// Grey-level threshold: mobs this many levels below the player give no rep.
const GREY_LEVEL_DIFF: u8 = 8;

/// Mob kill rep after diminishing returns: full at or above the player's
/// level, `(8 - diff) / 8` of it (truncated toward zero) for `diff` levels
/// below, none from 8 levels below.
pub open spec fn diminished_spec(base_rep: int, player_level: int, mob_level: int) -> int {
    if mob_level >= player_level {
        base_rep
    } else if player_level - mob_level >= 8 {
        0
    } else {
        let k = 8 - (player_level - mob_level);
        if base_rep >= 0 {
            base_rep * k / 8
        } else {
            -((-base_rep) * k / 8)
        }
    }
}

/// Mob-kill reputation diminishes with the level gap: full from a mob at or
/// above the player's level, nothing from a mob 8 or more levels below, and in
/// between `(8 - gap) / 8` of a non-negative base, rounded down, so it never
/// exceeds the base and shrinks as the gap grows.
pub proof fn lemma_diminishing(base: int, player_level: int, mob_level: int, lower_mob: int)
    requires
        0 <= base,
        lower_mob <= mob_level,
    ensures
        mob_level >= player_level ==> diminished_spec(base, player_level, mob_level) == base,
        player_level - mob_level >= 8 ==> diminished_spec(base, player_level, mob_level) == 0,
        0 < player_level - mob_level < 8 ==> {
            let r = diminished_spec(base, player_level, mob_level);
            &&& 8 * r <= base * (8 - (player_level - mob_level)) < 8 * r + 8
            &&& 0 <= r <= base
        },
        diminished_spec(base, player_level, lower_mob) <= diminished_spec(base, player_level, mob_level),
{
    let g = player_level - mob_level;
    let gl = player_level - lower_mob;
    if 0 < g < 8 {
        assert(0 <= base * (8 - g) <= base * 8) by (nonlinear_arith)
            requires
                0 <= base,
                0 < g < 8,
        ;
    }
    if 0 < gl < 8 {
        assert(0 <= base * (8 - gl)) by (nonlinear_arith)
            requires
                0 <= base,
                0 < gl < 8,
        ;
        if 0 < g {
            assert(base * (8 - gl) <= base * (8 - g)) by (nonlinear_arith)
                requires
                    0 <= base,
                    g <= gl,
            ;
            vstd::arithmetic::div_mod::lemma_div_is_ordered(base * (8 - gl), base * (8 - g), 8);
        } else {
            assert(base * (8 - gl) <= base * 8) by (nonlinear_arith)
                requires
                    0 <= base,
                    0 < gl,
            ;
            vstd::arithmetic::div_mod::lemma_div_is_ordered(base * (8 - gl), base * 8, 8);
        }
    }
}

/// Apply diminishing returns to mob kill rep based on level difference.
///
/// - Same level or higher: full rep.
/// - 1–7 levels below: linear reduction (87.5% at -1, down to 12.5% at -7).
/// - 8+ levels below (grey): zero rep.
///
/// `base_rep`: the unscaled rep amount from the mob.
/// `player_level`: the player's current level.
/// `mob_level`: the mob's level.
pub fn diminished_mob_rep(base_rep: i32, player_level: u8, mob_level: u8) -> (r: i32)
    ensures
        r == diminished_spec(base_rep as int, player_level as int, mob_level as int),
{
    if mob_level >= player_level {
        return base_rep;
    }
    let diff = player_level - mob_level;
    if diff >= GREY_LEVEL_DIFF {
        return 0;
    }
    let k: i64 = (GREY_LEVEL_DIFF - diff) as i64;
    let b: i64 = base_rep as i64;
    assert(k == 8 - (player_level - mob_level));
    if b >= 0 {
        assert(0 <= b * k <= b * 7) by (nonlinear_arith)
            requires
                0 <= b,
                1 <= k <= 7,
        ;
        let p: i64 = b * k;
        assert(p / 8 <= b) by (nonlinear_arith)
            requires
                0 <= p <= b * 7,
        ;
        (p / 8) as i32
    } else {
        let nb: i64 = -b;
        assert(0 <= nb * k <= nb * 7) by (nonlinear_arith)
            requires
                0 <= nb,
                1 <= k <= 7,
        ;
        let p: i64 = nb * k;
        assert(p / 8 <= 1_879_048_192) by (nonlinear_arith)
            requires
                0 <= p <= nb * 7,
                nb <= 2_147_483_648,
        ;
        let q: i32 = (p / 8) as i32;
        -q
    }
}

// --- Gated rewards ---

/// Type of reward gated behind a reputation standing.
#[derive(Debug, Clone, Copy, PartialEq, Eq, Structural)]
pub enum GatedRewardType {
    /// A vendor item unlocked at this standing.
    VendorItem,
    /// A crafting recipe unlocked at this standing.
    Recipe,
    /// An enchantment or enchant formula.
    Enchant,
    /// A tabard or cosmetic.
    Tabard,
    /// A mount.
    Mount,
}

/// A reward gated behind a faction standing requirement.
#[derive(Debug, Clone, PartialEq, Eq, Structural)]
pub struct GatedReward {
    /// Item or recipe ID.
    pub item_id: u32,
    /// Faction that gates this reward.
    pub faction_id: u32,
    /// Minimum standing required to purchase/learn.
    pub required_standing: Standing,
    /// What kind of reward this is.
    pub reward_type: GatedRewardType,
    /// Cost in copper (0 if free or learned automatically).
    pub cost: u32,
}

/// Whether the character's standing with the reward's faction reaches the requirement.
pub open spec fn reward_accessible(reward: GatedReward, rep: CharacterReputation) -> bool {
    rank_of(standing_of(rep.value_of(reward.faction_id) as int)) >= rank_of(
        reward.required_standing,
    )
}

/// Rewards of `faction_id` the character can access now.
pub open spec fn available_for(faction_id: u32, rep: CharacterReputation) -> spec_fn(GatedReward) -> bool {
    |g: GatedReward| g.faction_id == faction_id && reward_accessible(g, rep)
}

/// Rewards of `faction_id` that need a higher standing than the current one.
pub open spec fn upcoming_for(faction_id: u32, rep: CharacterReputation) -> spec_fn(GatedReward) -> bool {
    |g: GatedReward|
        g.faction_id == faction_id && rank_of(g.required_standing) > rank_of(
            standing_of(rep.value_of(faction_id) as int),
        )
}

/// Check if a character can access a gated reward.
pub fn can_access_reward(reward: &GatedReward, rep: &CharacterReputation) -> (b: bool)
    ensures
        b == reward_accessible(*reward, *rep),
{
    rep.has_standing(reward.faction_id, reward.required_standing)
}

/// Filter a list of rewards to those accessible at current standing.
pub fn available_rewards<'a>(
    rewards: &'a [GatedReward],
    faction_id: u32,
    rep: &CharacterReputation,
) -> (r: Vec<&'a GatedReward>)
    ensures
        r@.unref() == rewards@.filter(available_for(faction_id, *rep)),
{
    let mut r: Vec<&'a GatedReward> = Vec::new();
    let mut i: usize = 0;
    while i < rewards.len()
        invariant
            i <= rewards@.len(),
            r@.unref() == rewards@.take(i as int).filter(available_for(faction_id, *rep)),
        decreases rewards.len() - i,
    {
        proof {
            reveal(Seq::filter);
            assert(rewards@.take(i + 1).drop_last() =~= rewards@.take(i as int));
            assert(rewards@.take(i + 1).last() == rewards@[i as int]);
        }
        let g = &rewards[i];
        if g.faction_id == faction_id && can_access_reward(g, rep) {
            r.push(g);
            proof {
                assert(r@.unref() =~= rewards@.take(i as int).filter(available_for(faction_id, *rep)).push(*g));
            }
        }
        i = i + 1;
    }
    proof {
        assert(rewards@.take(i as int) =~= rewards@);
    }
    r
}

/// Find rewards that will unlock at a higher standing tier than the current one.
pub fn upcoming_rewards<'a>(
    rewards: &'a [GatedReward],
    faction_id: u32,
    rep: &CharacterReputation,
) -> (r: Vec<&'a GatedReward>)
    ensures
        r@.unref() == rewards@.filter(upcoming_for(faction_id, *rep)),
{
    let current = standing_rank(rep.get_standing(faction_id));
    let mut r: Vec<&'a GatedReward> = Vec::new();
    let mut i: usize = 0;
    while i < rewards.len()
        invariant
            i <= rewards@.len(),
            current == rank_of(standing_of(rep.value_of(faction_id) as int)),
            r@.unref() == rewards@.take(i as int).filter(upcoming_for(faction_id, *rep)),
        decreases rewards.len() - i,
    {
        proof {
            reveal(Seq::filter);
            assert(rewards@.take(i + 1).drop_last() =~= rewards@.take(i as int));
            assert(rewards@.take(i + 1).last() == rewards@[i as int]);
        }
        let g = &rewards[i];
        if g.faction_id == faction_id && standing_rank(g.required_standing) > current {
            r.push(g);
            proof {
                assert(r@.unref() =~= rewards@.take(i as int).filter(upcoming_for(faction_id, *rep)).push(*g));
            }
        }
        i = i + 1;
    }
    proof {
        assert(rewards@.take(i as int) =~= rewards@);
    }
    r
}

// --- Tabard championing ---

/// A faction tabard that can be worn to champion a faction in dungeons.
#[derive(Debug, Clone, Copy, PartialEq, Eq, Structural)]
pub struct FactionTabard {
    /// Item ID of the tabard.
    pub item_id: u32,
    /// Faction this tabard champions.
    pub faction_id: u32,
}

/// Resolve which faction receives dungeon mob kill rep.
///
/// If the player is wearing a champion tabard, rep is redirected to the
/// tabard's faction. Otherwise, returns the original faction (if any).
///
/// `equipped_tabard` should be the faction tabard the player is wearing,
/// or `None` if they have no faction tabard equipped.
/// `in_dungeon` must be true for championing to apply.
pub fn resolve_champion_faction(
    original_faction: Option<u32>,
    equipped_tabard: Option<&FactionTabard>,
    in_dungeon: bool,
) -> (f: Option<u32>)
    ensures
        f == (if in_dungeon && equipped_tabard is Some {
            Some(equipped_tabard->0.faction_id)
        } else {
            original_faction
        }),
{
    if in_dungeon {
        if let Some(tabard) = equipped_tabard {
            return Some(tabard.faction_id);
        }
    }
    original_faction
}

/// A stored value read back after `set_rep` is the clamped value written,
/// and every other faction keeps its value.
pub proof fn lemma_set_rep_read_back(
    before: CharacterReputation,
    after: CharacterReputation,
    faction_id: u32,
    value: i32,
)
    requires
        after.value_map() == before.value_map().insert(faction_id, clamp_rep(value as int) as i32),
    ensures
        after.value_of(faction_id) == clamp_rep(value as int),
        forall|other: u32| other != faction_id ==> after.value_of(other) == before.value_of(other),
{
}

/// Any value written by `modify_rep`, `gain_rep`, `lose_rep` or `set_rep`
/// lies in `[REP_MIN, REP_MAX]`, whatever the amount.
pub proof fn lemma_clamped_in_range(x: int)
    ensures
        REP_MIN <= clamp_rep(x) <= REP_MAX,
        REP_MIN <= x <= REP_MAX ==> clamp_rep(x) == x,
{
}

/// Losing what was just gained restores the value, as long as the gain
/// did not hit the cap.
pub proof fn lemma_gain_then_lose_restores(value: int, amount: int)
    requires
        REP_MIN <= value <= REP_MAX,
        0 <= amount,
        value + amount <= REP_MAX,
    ensures
        clamp_rep(clamp_rep(value + amount) - amount) == value,
{
}

/// A reward of the faction is either available now or upcoming, never both.
pub proof fn lemma_available_xor_upcoming(g: GatedReward, rep: CharacterReputation)
    ensures
        available_for(g.faction_id, rep)(g) != upcoming_for(g.faction_id, rep)(g),
{
}

/// Rewards belonging to `faction_id`.
pub open spec fn of_faction(faction_id: u32) -> spec_fn(GatedReward) -> bool {
    |g: GatedReward| g.faction_id == faction_id
}

/// The available and the upcoming rewards of a faction split its rewards:
/// counted with multiplicity, the two lists together hold exactly the
/// faction's rewards, so no reward is in both and none is left out.
pub proof fn lemma_rewards_partition(rewards: Seq<GatedReward>, faction_id: u32, rep: CharacterReputation)
    ensures
        rewards.filter(available_for(faction_id, rep)).to_multiset().add(
            rewards.filter(upcoming_for(faction_id, rep)).to_multiset(),
        ) == rewards.filter(of_faction(faction_id)).to_multiset(),
    decreases rewards.len(),
{
    reveal(Seq::filter);
    broadcast use vstd::seq_lib::group_to_multiset_ensures;
    broadcast use vstd::multiset::group_multiset_axioms;

    let a = available_for(faction_id, rep);
    let u = upcoming_for(faction_id, rep);
    let f = of_faction(faction_id);
    if rewards.len() == 0 {
        assert(rewards.filter(a).to_multiset().add(rewards.filter(u).to_multiset())
            =~= rewards.filter(f).to_multiset());
    } else {
        let rest = rewards.drop_last();
        let g = rewards.last();
        lemma_rewards_partition(rest, faction_id, rep);
        lemma_available_xor_upcoming(g, rep);
        let ma = rest.filter(a).to_multiset();
        let mu = rest.filter(u).to_multiset();
        let mf = rest.filter(f).to_multiset();
        if f(g) {
            assert(rewards.filter(f).to_multiset() =~= mf.insert(g));
            if a(g) {
                assert(!u(g));
                assert(rewards.filter(a).to_multiset() =~= ma.insert(g));
                assert(rewards.filter(u).to_multiset() =~= mu);
                assert(ma.insert(g).add(mu) =~= mf.insert(g));
            } else {
                assert(u(g));
                assert(rewards.filter(a).to_multiset() =~= ma);
                assert(rewards.filter(u).to_multiset() =~= mu.insert(g));
                assert(ma.add(mu.insert(g)) =~= mf.insert(g));
            }
        } else {
            assert(!a(g) && !u(g));
            assert(rewards.filter(f).to_multiset() =~= mf);
            assert(rewards.filter(a).to_multiset() =~= ma);
            assert(rewards.filter(u).to_multiset() =~= mu);
        }
    }
}

/// Gaining standing never takes a reward away.
pub proof fn lemma_access_monotone(g: GatedReward, a: CharacterReputation, b: CharacterReputation)
    requires
        a.value_of(g.faction_id) <= b.value_of(g.faction_id),
        reward_accessible(g, a),
    ensures
        reward_accessible(g, b),
{
    lemma_standing_monotone(a.value_of(g.faction_id) as int, b.value_of(g.faction_id) as int);
}

/// Registering a faction replaces any faction with the same id: afterwards a
/// lookup of that id finds the new definition, the registry grows by one only
/// if the id was new, and every other id still finds what it found before.
pub proof fn lemma_add_replaces_by_id(entries: Seq<FactionData>, faction: FactionData, other: u32)
    requires
        ids_unique(entries),
        other != faction.id,
    ensures
        ({
            let t = without_faction(entries, faction.id).push(faction);
            &&& ids_unique(t)
            &&& has_faction(t, faction.id)
            &&& t[faction_pos(t, faction.id)] == faction
            &&& t.len() == entries.len() + (if has_faction(entries, faction.id) { 0int } else { 1 })
            &&& has_faction(t, other) == has_faction(entries, other)
            &&& has_faction(entries, other) ==> t[faction_pos(t, other)] == entries[faction_pos(
                entries,
                other,
            )]
        }),
{
    let id = faction.id;
    let kept = without_faction(entries, id);
    let t = kept.push(faction);
    let n = entries.len();
    // where the old entries sit in `kept`
    let hp = has_faction(entries, id);
    let p = faction_pos(entries, id);
    assert(forall|k: int|
        0 <= k < kept.len() ==> #[trigger] kept[k] == entries[if hp && k >= p { k + 1 } else { k }]);
    assert forall|k: int| 0 <= k < kept.len() implies (#[trigger] kept[k]).id != id by {
        if hp {
            let k2 = if k >= p { k + 1 } else { k };
            assert(kept[k] == entries[k2]);
            assert(entries[p].id == id);
            assert(k2 != p);
            if k2 < p {
                assert(entries[k2].id != entries[p].id);
            } else {
                assert(entries[p].id != entries[k2].id);
            }
        } else {
            assert(entries[k].id != id);
        }
    }
    assert forall|a: int, b: int| 0 <= a < b < t.len() implies (#[trigger] t[a]).id
        != (#[trigger] t[b]).id by {
        if b == t.len() - 1 {
            assert(t[a] == kept[a]);
        } else {
            let a2 = if hp && a >= p { a + 1 } else { a };
            let b2 = if hp && b >= p { b + 1 } else { b };
            assert(t[a] == entries[a2]);
            assert(t[b] == entries[b2]);
        }
    }
    let last = t.len() - 1;
    assert(t[last] == faction);
    assert(has_faction(t, id));
    let q = faction_pos(t, id);
    assert(q == last) by {
        if q != last {
            assert(t[q] == kept[q]);
        }
    }
    if has_faction(entries, other) {
        let po = faction_pos(entries, other);
        assert(entries[po].id == other);
        assert(po != p || !hp);
        let k = if hp && po > p { po - 1 } else { po };
        assert(t[k] == entries[po]);
        assert(has_faction(t, other));
        let qo = faction_pos(t, other);
        assert(qo == k) by {
            if qo != k {
                if qo < k {
                    assert(t[qo].id != t[k].id);
                } else {
                    assert(t[k].id != t[qo].id);
                }
            }
        }
    } else {
        if has_faction(t, other) {
            let qo = faction_pos(t, other);
            if qo < kept.len() {
                let k2 = if hp && qo >= p { qo + 1 } else { qo };
                assert(entries[k2].id == other);
            }
        }
    }
}

/// A character created for a race starts, with every faction of a registry,
/// at that faction's base value for the race, and knows no other faction.
pub proof fn lemma_new_for_race_values(entries: Seq<FactionData>, race: u8, k: int)
    requires
        ids_unique(entries),
        0 <= k < entries.len(),
    ensures
        insert_all(Map::empty(), race_bases(entries, race)).contains_key(entries[k].id),
        insert_all(Map::empty(), race_bases(entries, race))[entries[k].id] == base_rep_spec(
            entries[k].base_standing@,
            race,
        ),
        forall|f: u32|
            #[trigger] insert_all(Map::empty(), race_bases(entries, race)).contains_key(f)
                ==> has_faction(entries, f),
    decreases entries.len(),
{
    let n = entries.len();
    let pre = entries.drop_last();
    assert(race_bases(entries, race).drop_last() =~= race_bases(pre, race));
    assert(race_bases(entries, race).last() == (entries[n - 1].id, base_rep_spec(
        entries[n - 1].base_standing@,
        race,
    )));
    assert(ids_unique(pre)) by {
        assert forall|i: int, j: int| 0 <= i < j < pre.len() implies (#[trigger] pre[i]).id
            != (#[trigger] pre[j]).id by {
            assert(pre[i] == entries[i] && pre[j] == entries[j]);
        }
    }
    if k < n - 1 {
        lemma_new_for_race_values(pre, race, k);
        assert(pre[k] == entries[k]);
        assert(entries[k].id != entries[n - 1].id);
    }
    assert forall|f: u32| #[trigger] insert_all(Map::empty(), race_bases(entries, race)).contains_key(f)
        implies has_faction(entries, f) by {
        if f == entries[n - 1].id {
            assert(entries[n - 1].id == f);
        } else {
            assert(insert_all(Map::empty(), race_bases(pre, race)).contains_key(f));
            if n - 1 > 0 {
                lemma_new_for_race_values(pre, race, 0);
            }
            if pre.len() > 0 {
                assert(has_faction(pre, f));
                let w = choose|j: int| 0 <= j < pre.len() && (#[trigger] pre[j]).id == f;
                assert(entries[w] == pre[w]);
            } else {
                assert(race_bases(pre, race).len() == 0);
            }
        }
    }
}

} // verus!
