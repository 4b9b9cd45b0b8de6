//! Pet collection, pet leveling and turn-based 3v3 pet battles.
use vstd::prelude::*;

verus! {

/// Pet quality tier (affects stat scaling).
#[derive(Debug, Clone, Copy, PartialEq, Eq, Hash, PartialOrd, Ord, Structural)]
pub enum PetQuality {
    Poor,
    Common,
    Uncommon,
    Rare,
    Epic,
    Legendary,
}

impl PetQuality {
    /// Numeric id of the tier (Poor = 0 up to Legendary = 5).
    pub open spec fn id(self) -> u8 {
        match self {
            PetQuality::Poor => 0,
            PetQuality::Common => 1,
            PetQuality::Uncommon => 2,
            PetQuality::Rare => 3,
            PetQuality::Epic => 4,
            PetQuality::Legendary => 5,
        }
    }

    /// The tier with the given numeric id, if any.
    pub fn from_id(id: u8) -> (r: Option<Self>)
        ensures
            r is Some <==> id <= 5,
            r matches Some(q) ==> q.id() == id,
    {
        match id {
            0 => Some(PetQuality::Poor),
            1 => Some(PetQuality::Common),
            2 => Some(PetQuality::Uncommon),
            3 => Some(PetQuality::Rare),
            4 => Some(PetQuality::Epic),
            5 => Some(PetQuality::Legendary),
            _ => None,
        }
    }
}

/// Maximum pet level.
pub const MAX_PET_LEVEL: u8 = 25;

/// Maximum pets per account journal.
pub const MAX_JOURNAL_SIZE: usize = 1000;

/// Maximum duplicates of the same species.
pub const MAX_PER_SPECIES: usize = 3;

/// A single pet instance owned by an account.
#[derive(Debug, Clone, PartialEq, Eq)]
pub struct OwnedPet {
    /// Unique pet instance ID.
    pub id: u64,
    /// Species template ID (which kind of pet).
    pub species_id: u32,
    /// Pet's custom name (or species default if None).
    pub custom_name: Option<String>,
    /// Current level (1–25).
    pub level: u8,
    /// Quality tier.
    pub quality: PetQuality,
    /// Current XP toward next level.
    pub xp: u32,
}

/// Why a pet journal operation failed.
#[derive(Debug, Clone, Copy, PartialEq, Eq, Structural)]
pub enum PetJournalError {
    /// Journal is full (1000 pets max).
    JournalFull,
    /// Already have 3 of this species.
    SpeciesLimitReached,
    /// Pet not found in journal.
    PetNotFound,
    /// Name is empty.
    EmptyName,
}

/// Account-wide pet collection.
#[derive(Debug, PartialEq)]
pub struct PetJournal {
    pub pets: Vec<OwnedPet>,
    next_id: u64,
}

impl Default for PetJournal {
    fn default() -> (r: Self)
        ensures
            r.pet_list() == Seq::<OwnedPet>::empty(),
            r.last_id() == 0,
    {
        PetJournal { pets: Vec::new(), next_id: 0 }
    }
}

/// Number of pets of a species.
pub open spec fn species_count(pets: Seq<OwnedPet>, species_id: u32) -> nat
    decreases pets.len(),
{
    if pets.len() == 0 {
        0
    } else {
        species_count(pets.drop_last(), species_id) + if pets.last().species_id == species_id {
            1nat
        } else {
            0nat
        }
    }
}

/// The set of species held.
pub open spec fn species_set(pets: Seq<OwnedPet>) -> Set<u32>
    decreases pets.len(),
{
    if pets.len() == 0 {
        Set::empty()
    } else {
        species_set(pets.drop_last()).insert(pets.last().species_id)
    }
}

/// Whether a pet sequence holds a pet with the given id.
pub open spec fn has_pet(pets: Seq<OwnedPet>, pet_id: u64) -> bool {
    exists|k: int| 0 <= k < pets.len() && pets[k].id == pet_id
}

/// Index of the first pet with the given id (meaningful when `has_pet`).
pub open spec fn pet_index(pets: Seq<OwnedPet>, pet_id: u64) -> int {
    choose|k: int|
        0 <= k < pets.len() && pets[k].id == pet_id && forall|m: int|
            0 <= m < k ==> pets[m].id != pet_id
}

/// Pets of a species, in journal order.
pub open spec fn of_species(species_id: u32) -> spec_fn(OwnedPet) -> bool {
    |p: OwnedPet| p.species_id == species_id
}

/// Highest level among the pets (0 if none).
pub open spec fn max_level(pets: Seq<OwnedPet>) -> u8
    decreases pets.len(),
{
    if pets.len() == 0 {
        0
    } else {
        let m = max_level(pets.drop_last());
        if pets.last().level > m {
            pets.last().level
        } else {
            m
        }
    }
}

proof fn lemma_species_set_finite(pets: Seq<OwnedPet>)
    ensures
        species_set(pets).finite(),
        species_set(pets).len() <= pets.len(),
    decreases pets.len(),
{
    if pets.len() > 0 {
        lemma_species_set_finite(pets.drop_last());
    }
}

impl PetJournal {
    /// The pets in journal order.
    pub closed spec fn pet_list(&self) -> Seq<OwnedPet> {
        self.pets@
    }

    /// The id given to the most recently added pet (0 before any).
    pub closed spec fn last_id(&self) -> u64 {
        self.next_id
    }

    /// Every pet id in the journal is at most the last id handed out.
    pub open spec fn ids_issued(&self) -> bool {
        forall|k: int| 0 <= k < self.pet_list().len() ==> #[trigger] self.pet_list()[k].id <= self.last_id()
    }

    fn find(&self, pet_id: u64) -> (r: Option<usize>)
        ensures
            r is None <==> !has_pet(self.pet_list(), pet_id),
            r matches Some(i) ==> i == pet_index(self.pet_list(), pet_id) && i < self.pet_list().len()
                && self.pet_list()[i as int].id == pet_id,
    {
        let mut i: usize = 0;
        while i < self.pets.len()
            invariant
                i <= self.pets.len(),
                forall|k: int| 0 <= k < i ==> self.pet_list()[k].id != pet_id,
            decreases self.pets.len() - i,
        {
            if self.pets[i].id == pet_id {
                let ghost s = self.pet_list();
                assert(0 <= i < s.len() && s[i as int].id == pet_id && forall|m: int|
                    0 <= m < i ==> s[m].id != pet_id);
                let ghost fi = pet_index(s, pet_id);
                assert(fi == i) by {
                    if fi < i {
                        assert(s[fi].id != pet_id);
                    } else if fi > i {
                        assert(s[i as int].id == pet_id);
                    }
                }
                return Some(i);
            }
            i = i + 1;
        }
        None
    }

    /// Add a new pet to the journal. Returns the assigned pet ID.
    pub fn add(&mut self, species_id: u32, level: u8, quality: PetQuality) -> (r: Result<
        u64,
        PetJournalError,
    >)
        requires
            old(self).pet_list().len() < 1000 && species_count(old(self).pet_list(), species_id) < 3
                ==> old(self).last_id() < u64::MAX,
        ensures
            old(self).pet_list().len() >= 1000 ==> r == Err::<u64, PetJournalError>(
                PetJournalError::JournalFull,
            ),
            old(self).pet_list().len() < 1000 && species_count(old(self).pet_list(), species_id) >= 3
                ==> r == Err::<u64, PetJournalError>(PetJournalError::SpeciesLimitReached),
            r is Err ==> final(self).pet_list() == old(self).pet_list() && final(self).last_id() == old(self).last_id(),
            r matches Ok(id) ==> {
                &&& id == old(self).last_id() + 1
                &&& final(self).last_id() == id
                &&& final(self).pet_list() == old(self).pet_list().push(
                    OwnedPet {
                        id,
                        species_id,
                        custom_name: None,
                        level: if level < 1 {
                            1
                        } else if level > 25 {
                            25
                        } else {
                            level
                        },
                        quality,
                        xp: 0,
                    },
                )
            },
            (r is Ok) <==> (old(self).pet_list().len() < 1000 && species_count(old(self).pet_list(), species_id)
                < 3),
            old(self).ids_issued() ==> final(self).ids_issued(),
    {
        if self.pets.len() >= MAX_JOURNAL_SIZE {
            return Err(PetJournalError::JournalFull);
        }
        let species_count = self.count_species(species_id);
        if species_count >= MAX_PER_SPECIES {
            return Err(PetJournalError::SpeciesLimitReached);
        }
        self.next_id = self.next_id + 1;
        let id = self.next_id;
        let lvl = if level < 1 {
            1
        } else if level > MAX_PET_LEVEL {
            MAX_PET_LEVEL
        } else {
            level
        };
        self.pets.push(OwnedPet { id, species_id, custom_name: None, level: lvl, quality, xp: 0 });
        Ok(id)
    }

    /// Remove a pet from the journal (release).
    pub fn remove(&mut self, pet_id: u64) -> (r: Result<(), PetJournalError>)
        ensures
            final(self).last_id() == old(self).last_id(),
            !has_pet(old(self).pet_list(), pet_id) ==> r == Err::<(), PetJournalError>(
                PetJournalError::PetNotFound,
            ) && final(self).pet_list() == old(self).pet_list(),
            has_pet(old(self).pet_list(), pet_id) ==> r is Ok && final(self).pet_list() == old(self).pet_list().remove(pet_index(old(self).pet_list(), pet_id)),
    {
        match self.find(pet_id) {
            Some(idx) => {
                self.pets.remove(idx);
                Ok(())
            },
            None => Err(PetJournalError::PetNotFound),
        }
    }

    /// Rename a pet.
    #[verifier::rlimit(30)]
    pub fn rename(&mut self, pet_id: u64, name: String) -> (r: Result<(), PetJournalError>)
        ensures
            final(self).last_id() == old(self).last_id(),
            name@.len() == 0 ==> r == Err::<(), PetJournalError>(PetJournalError::EmptyName),
            name@.len() > 0 && !has_pet(old(self).pet_list(), pet_id) ==> r == Err::<
                (),
                PetJournalError,
            >(PetJournalError::PetNotFound),
            r is Err ==> final(self).pet_list() == old(self).pet_list(),
            r is Ok <==> name@.len() > 0 && has_pet(old(self).pet_list(), pet_id),
            r is Ok ==> {
                let k = pet_index(old(self).pet_list(), pet_id);
                final(self).pet_list() == old(self).pet_list().update(
                    k,
                    OwnedPet { custom_name: Some(name), ..old(self).pet_list()[k] },
                )
            },
    {
        if name.as_str().is_empty() {
            return Err(PetJournalError::EmptyName);
        }
        match self.find(pet_id) {
            Some(idx) => {
                let ghost before = self.pets@;
                let mut pet = self.pets.remove(idx);
                pet.custom_name = Some(name);
                let ghost renamed = pet;
                self.pets.insert(idx, pet);
                assert(self.pets@ =~= before.update(idx as int, renamed));
                Ok(())
            },
            None => Err(PetJournalError::PetNotFound),
        }
    }

    /// Get a pet by ID.
    pub fn get(&self, pet_id: u64) -> (r: Option<&OwnedPet>)
        ensures
            r is None <==> !has_pet(self.pet_list(), pet_id),
            r matches Some(p) ==> *p == self.pet_list()[pet_index(self.pet_list(), pet_id)],
    {
        match self.find(pet_id) {
            Some(i) => Some(&self.pets[i]),
            None => None,
        }
    }

    /// Number of pets in the journal.
    pub fn count(&self) -> (r: usize)
        ensures
            r == self.pet_list().len(),
    {
        self.pets.len()
    }

    /// Number of unique species collected.
    pub fn unique_species(&self) -> (r: usize)
        ensures
            r == species_set(self.pet_list()).len(),
    {
        let mut n: usize = 0;
        let mut i: usize = 0;
        while i < self.pets.len()
            invariant
                i <= self.pets.len(),
                n == species_set(self.pets@.take(i as int)).len(),
                n <= i,
            decreases self.pets.len() - i,
        {
            let ghost pre = self.pets@.take(i as int);
            assert(self.pets@.take(i + 1).drop_last() =~= pre);
            proof {
                lemma_species_set_finite(pre);
            }
            let sp = self.pets[i].species_id;
            let mut seen = false;
            let mut j: usize = 0;
            while j < i
                invariant
                    j <= i,
                    i < self.pets.len(),
                    pre == self.pets@.take(i as int),
                    seen == exists|k: int| 0 <= k < j && self.pet_list()[k].species_id == sp,
                decreases i - j,
            {
                if self.pets[j].species_id == sp {
                    seen = true;
                }
                j = j + 1;
            }
            proof {
                lemma_species_set_contains(pre, sp);
                lemma_species_set_finite(pre);
                assert(seen == exists|k: int| 0 <= k < pre.len() && pre[k].species_id == sp) by {
                    if seen {
                        let k = choose|k: int| 0 <= k < j && self.pets@[k].species_id == sp;
                        assert(pre[k] == self.pets@[k]);
                    }
                    if exists|k: int| 0 <= k < pre.len() && pre[k].species_id == sp {
                        let k = choose|k: int| 0 <= k < pre.len() && pre[k].species_id == sp;
                        assert(pre[k] == self.pets@[k]);
                    }
                }
                assert(self.pets@.take(i + 1).last() == self.pets@[i as int]);
                assert(species_set(self.pets@.take(i + 1)) == species_set(pre).insert(sp));
            }
            if !seen {
                n = n + 1;
            }
            i = i + 1;
        }
        assert(self.pets@.take(i as int) =~= self.pet_list());
        n
    }

    /// Count how many of a specific species are owned.
    pub fn count_species(&self, species_id: u32) -> (r: usize)
        ensures
            r == species_count(self.pet_list(), species_id),
    {
        let mut n: usize = 0;
        let mut i: usize = 0;
        while i < self.pets.len()
            invariant
                i <= self.pets.len(),
                n == species_count(self.pets@.take(i as int), species_id),
                n <= i,
            decreases self.pets.len() - i,
        {
            assert(self.pets@.take(i + 1).drop_last() =~= self.pets@.take(i as int));
            if self.pets[i].species_id == species_id {
                n = n + 1;
            }
            i = i + 1;
        }
        assert(self.pets@.take(i as int) =~= self.pet_list());
        n
    }

    /// All pets of a given species, in journal order.
    pub fn by_species(&self, species_id: u32) -> (r: Vec<&OwnedPet>)
        ensures
            r@.map_values(|p: &OwnedPet| *p) == self.pet_list().filter(of_species(species_id)),
    {
        let mut out: Vec<&OwnedPet> = Vec::new();
        let mut i: usize = 0;
        while i < self.pets.len()
            invariant
                i <= self.pets.len(),
                out@.map_values(|p: &OwnedPet| *p) == self.pets@.take(i as int).filter(
                    of_species(species_id),
                ),
            decreases self.pets.len() - i,
        {
            proof {
                reveal(Seq::filter);
            }
            assert(self.pets@.take(i + 1).drop_last() =~= self.pets@.take(i as int));
            let ghost before = out@;
            let p = &self.pets[i];
            if p.species_id == species_id {
                out.push(p);
                assert(out@.map_values(|p: &OwnedPet| *p) =~= before.map_values(
                    |p: &OwnedPet| *p,
                ).push(*p));
            }
            i = i + 1;
        }
        assert(self.pets@.take(i as int) =~= self.pet_list());
        out
    }

    /// Highest-level pet in the journal (0 if empty).
    pub fn highest_level(&self) -> (r: u8)
        ensures
            r == max_level(self.pet_list()),
    {
        let mut best: u8 = 0;
        let mut i: usize = 0;
        while i < self.pets.len()
            invariant
                i <= self.pets.len(),
                best == max_level(self.pets@.take(i as int)),
            decreases self.pets.len() - i,
        {
            assert(self.pets@.take(i + 1).drop_last() =~= self.pets@.take(i as int));
            if self.pets[i].level > best {
                best = self.pets[i].level;
            }
            i = i + 1;
        }
        assert(self.pets@.take(i as int) =~= self.pet_list());
        best
    }
}

proof fn lemma_species_set_contains(pets: Seq<OwnedPet>, sp: u32)
    ensures
        species_set(pets).contains(sp) <==> exists|k: int| 0 <= k < pets.len() && pets[k].species_id == sp,
    decreases pets.len(),
{
    if pets.len() > 0 {
        let p = pets.drop_last();
        lemma_species_set_contains(p, sp);
        if species_set(p).contains(sp) {
            let k = choose|k: int| 0 <= k < p.len() && p[k].species_id == sp;
            assert(pets[k] == p[k]);
        }
        if exists|k: int| 0 <= k < pets.len() && pets[k].species_id == sp {
            let k = choose|k: int| 0 <= k < pets.len() && pets[k].species_id == sp;
            if k < pets.len() - 1 {
                assert(p[k] == pets[k]);
            }
        }
    }
}

/// While the journal keeps its ids issued, a newly added pet's id differs from
/// every pet already in the journal.
pub proof fn lemma_new_pet_id_is_fresh(journal: PetJournal)
    requires
        journal.ids_issued(),
    ensures
        forall|k: int|
            0 <= k < journal.pet_list().len() ==> #[trigger] journal.pet_list()[k].id != journal.last_id() + 1,
{
    assert forall|k: int| 0 <= k < journal.pet_list().len() implies #[trigger] journal.pet_list()[k].id
        != journal.last_id() + 1 by {
        assert(journal.pet_list()[k].id <= journal.last_id());
    }
}

// -- Pet XP & Leveling --

/// XP needed to advance from `level` to the next: `50 + 25 * level^2`, and 0
/// at the maximum level.
pub open spec fn xp_needed(level: u8) -> nat {
    if level >= 25 {
        0
    } else {
        (50 + 25 * level * level) as nat
    }
}

/// Each level needs more XP than the last: 75 from level 1, growing by
/// `25 * (2 * level + 1)` per level, and nothing once the maximum level is
/// reached.
pub proof fn lemma_xp_curve(level: u8)
    ensures
        xp_needed(1) == 75,
        1 <= level && level + 1 < 25 ==> xp_needed((level + 1) as u8) == xp_needed(level) + 25 * (2
            * level + 1),
        level >= 25 ==> xp_needed(level) == 0,
{
    if 1 <= level && level + 1 < 25 {
        assert(25 * (level + 1) * (level + 1) == 25 * level * level + 25 * (2 * level + 1))
            by (nonlinear_arith);
    }
}

/// Total XP to go from level 1 up to `target`.
pub open spec fn xp_total(target: u8) -> nat
    decreases target,
{
    if target <= 1 {
        0
    } else {
        xp_total((target - 1) as u8) + xp_needed((target - 1) as u8)
    }
}

/// XP required to advance from a given level to the next.
pub fn xp_to_next_level(level: u8) -> (r: u32)
    ensures
        r == xp_needed(level),
{
    if level >= MAX_PET_LEVEL {
        return 0;
    }
    assert(25 * (level as u32) * (level as u32) <= 14400) by (nonlinear_arith)
        requires
            level < 25,
    ;
    50 + 25 * (level as u32) * (level as u32)
}

proof fn lemma_xp_needed_bound(level: u8)
    ensures
        xp_needed(level) <= 14450,
{
    if level < 25 {
        assert(25 * level * level <= 14400) by (nonlinear_arith)
            requires
                level < 25,
        ;
    }
}

/// Total XP needed from level 1 to reach a target level.
pub fn total_xp_for_level(target_level: u8) -> (r: u32)
    ensures
        r == xp_total(target_level),
{
    if target_level <= 1 {
        return 0;
    }
    let mut sum: u32 = 0;
    let mut l: u8 = 1;
    while l < target_level
        invariant
            1 <= l <= target_level,
            sum == xp_total(l),
            sum <= 14450 * l,
        decreases target_level - l,
    {
        let x = xp_to_next_level(l);
        proof {
            lemma_xp_needed_bound(l);
        }
        sum = sum + x;
        l = l + 1;
    }
    sum
}

/// Result of awarding XP to a pet.
#[derive(Debug, Clone, Copy, PartialEq, Eq, Structural)]
pub struct XpGainResult {
    pub xp_gained: u32,
    pub levels_gained: u8,
    pub new_level: u8,
    pub new_xp: u32,
}

/// Level and XP after spending accumulated XP on level-ups, one level at a time,
/// until the maximum level or not enough XP remains.
pub open spec fn level_up(level: u8, xp: nat) -> (u8, nat)
    decreases 25 - level,
{
    if level >= 25 || xp < xp_needed(level) {
        (level, xp)
    } else {
        level_up((level + 1) as u8, (xp - xp_needed(level)) as nat)
    }
}

proof fn lemma_level_up_bounds(level: u8, xp: nat)
    ensures
        level_up(level, xp).0 >= level,
        level_up(level, xp).1 <= xp,
        level < 25 ==> level_up(level, xp).0 <= 25,
        level >= 25 ==> level_up(level, xp) == (level, xp),
        level_up(level, xp).0 < 25 ==> level_up(level, xp).1 < xp_needed(level_up(level, xp).0),
    decreases 25 - level,
{
    if !(level >= 25 || xp < xp_needed(level)) {
        lemma_level_up_bounds((level + 1) as u8, (xp - xp_needed(level)) as nat);
    }
}

/// Level and XP of a pet below the maximum level after it is awarded `xp`
/// while holding `held`: the level-ups are spent, and a pet that reaches the
/// maximum level keeps no XP.
pub open spec fn award_outcome(level: u8, held: nat, xp: nat) -> (u8, nat) {
    let (lv, rest) = level_up(level, held + xp);
    (lv, if lv >= 25 { 0 } else { rest })
}

/// Award XP to a pet, handling level-ups. Returns details of what changed.
pub fn award_xp(pet: &mut OwnedPet, xp: u32) -> (r: XpGainResult)
    requires
        old(pet).level < 25 ==> old(pet).xp + xp <= u32::MAX,
    ensures
        final(pet).id == old(pet).id,
        final(pet).species_id == old(pet).species_id,
        final(pet).custom_name == old(pet).custom_name,
        final(pet).quality == old(pet).quality,
        old(pet).level >= 25 ==> *final(pet) == *old(pet) && r == (XpGainResult {
            xp_gained: 0,
            levels_gained: 0,
            new_level: old(pet).level,
            new_xp: old(pet).xp,
        }),
        old(pet).level < 25 ==> (final(pet).level, final(pet).xp as nat) == award_outcome(
            old(pet).level,
            old(pet).xp as nat,
            xp as nat,
        ),
        old(pet).level < 25 ==> {
            let (lv, rest) = level_up(old(pet).level, (old(pet).xp + xp) as nat);
            &&& final(pet).level == lv
            &&& final(pet).xp == if lv >= 25 {
                0
            } else {
                rest
            }
            &&& r == (XpGainResult {
                xp_gained: xp,
                levels_gained: (lv - old(pet).level) as u8,
                new_level: lv,
                new_xp: final(pet).xp,
            })
        },
{
    if pet.level >= MAX_PET_LEVEL {
        return XpGainResult { xp_gained: 0, levels_gained: 0, new_level: pet.level, new_xp: pet.xp };
    }
    let start_level = pet.level;
    pet.xp = pet.xp + xp;
    let ghost total = pet.xp as nat;
    proof {
        lemma_level_up_bounds(start_level, total);
    }
    while pet.level < MAX_PET_LEVEL
        invariant_except_break
            pet.id == old(pet).id,
            pet.species_id == old(pet).species_id,
            pet.custom_name == old(pet).custom_name,
            pet.quality == old(pet).quality,
            start_level <= pet.level <= 25,
            level_up(pet.level, pet.xp as nat) == level_up(start_level, total),
        ensures
            pet.id == old(pet).id,
            pet.species_id == old(pet).species_id,
            pet.custom_name == old(pet).custom_name,
            pet.quality == old(pet).quality,
            start_level <= pet.level <= 25,
            level_up(pet.level, pet.xp as nat) == level_up(start_level, total),
            level_up(start_level, total) == (pet.level, pet.xp as nat),
        decreases 25 - pet.level,
    {
        let needed = xp_to_next_level(pet.level);
        if pet.xp < needed {
            break;
        }
        pet.xp = pet.xp - needed;
        pet.level = pet.level + 1;
    }
    if pet.level >= MAX_PET_LEVEL {
        pet.xp = 0;
    }
    XpGainResult {
        xp_gained: xp,
        levels_gained: pet.level - start_level,
        new_level: pet.level,
        new_xp: pet.xp,
    }
}

proof fn lemma_xp_total_step(level: u8)
    requires
        1 <= level < 25,
    ensures
        xp_total((level + 1) as u8) == xp_total(level) + xp_needed(level),
{
}

/// XP is conserved by leveling: below the maximum level, the total XP needed to
/// reach the new level plus the XP carried over equals the total for the old
/// level plus the XP that was held.
pub proof fn lemma_level_up_conserves_xp(level: u8, xp: nat)
    requires
        1 <= level,
    ensures
        level_up(level, xp).0 < 25 ==> xp_total(level_up(level, xp).0) + level_up(level, xp).1
            == xp_total(level) + xp,
        level < 25 && level_up(level, xp).0 == 25 ==> xp_total(25) <= xp_total(level) + xp,
    decreases 25 - level,
{
    if !(level >= 25 || xp < xp_needed(level)) {
        lemma_xp_total_step(level);
        lemma_level_up_conserves_xp((level + 1) as u8, (xp - xp_needed(level)) as nat);
        lemma_level_up_bounds((level + 1) as u8, (xp - xp_needed(level)) as nat);
    }
}

/// Awarding XP conserves it: below the maximum level, the total XP needed to
/// reach the pet's new level plus the XP it now holds equals the total for its
/// old level plus what it held plus what it was awarded, and it holds less than
/// the next level needs; a pet that reaches the maximum level holds no XP and
/// had at least enough for it. The level never goes down.
pub proof fn lemma_award_xp_conserves(level: u8, held: nat, xp: nat)
    requires
        1 <= level < 25,
    ensures
        ({
            let (lv, now) = award_outcome(level, held, xp);
            &&& level <= lv <= 25
            &&& lv < 25 ==> xp_total(lv) + now == xp_total(level) + held + xp && now < xp_needed(lv)
            &&& lv == 25 ==> now == 0 && xp_total(25) <= xp_total(level) + held + xp
        }),
{
    lemma_level_up_bounds(level, held + xp);
    lemma_level_up_conserves_xp(level, held + xp);
}

/// XP awarded for defeating a pet in battle: 100, plus 10 for every level the
/// opponent is above the winner's level minus 5 (saturating at 0).
pub open spec fn spec_battle_xp(winner_level: u8, opponent_level: u8) -> int {
    let floor = if winner_level >= 5 {
        winner_level - 5
    } else {
        0
    };
    let bonus = if opponent_level >= floor {
        opponent_level - floor
    } else {
        0
    };
    100 + bonus * 10
}

/// XP awarded for defeating a pet in battle.
pub fn battle_xp(winner_level: u8, opponent_level: u8) -> (r: u32)
    ensures
        r == spec_battle_xp(winner_level, opponent_level),
{
    let base = 100u32;
    let level_bonus = opponent_level.saturating_sub(winner_level.saturating_sub(5)) as u32;
    base + level_bonus * 10
}

/// Beating a higher-level opponent never gives less XP.
pub proof fn lemma_battle_xp_monotone(winner_level: u8, a: u8, b: u8)
    requires
        a <= b,
    ensures
        spec_battle_xp(winner_level, a) <= spec_battle_xp(winner_level, b),
        spec_battle_xp(winner_level, a) >= 100,
{
}

// -- Stats --

/// Computed combat stats for a pet at a specific level and quality.
#[derive(Debug, Clone, Copy, PartialEq, Eq, Structural)]
pub struct PetStats {
    pub health: u32,
    pub power: u32,
    pub speed: u32,
}

// -- Pet Families & Type Effectiveness --

/// Pet family (10 families, matching WoW pet battle types).
#[derive(Debug, Clone, Copy, PartialEq, Eq, Hash, Structural)]
pub enum PetFamily {
    Aquatic,
    Beast,
    Critter,
    Dragonkin,
    Elemental,
    Flying,
    Humanoid,
    Magic,
    Mechanical,
    Undead,
}

/// How an attacking family fares against a defending family.
#[derive(Debug, Clone, Copy, PartialEq, Eq, Structural)]
pub enum Matchup {
    /// 1.5× damage.
    Strong,
    /// 0.67× damage.
    Weak,
    /// 1.0× damage.
    Neutral,
}

/// The family an attacking family is strong against.
pub open spec fn strong_against(a: PetFamily) -> PetFamily {
    match a {
        PetFamily::Beast => PetFamily::Critter,
        PetFamily::Critter => PetFamily::Undead,
        PetFamily::Dragonkin => PetFamily::Magic,
        PetFamily::Elemental => PetFamily::Mechanical,
        PetFamily::Flying => PetFamily::Aquatic,
        PetFamily::Humanoid => PetFamily::Dragonkin,
        PetFamily::Magic => PetFamily::Flying,
        PetFamily::Mechanical => PetFamily::Beast,
        PetFamily::Aquatic => PetFamily::Elemental,
        PetFamily::Undead => PetFamily::Humanoid,
    }
}

/// The family an attacking family is weak against.
pub open spec fn weak_against(a: PetFamily) -> PetFamily {
    match a {
        PetFamily::Beast => PetFamily::Flying,
        PetFamily::Critter => PetFamily::Beast,
        PetFamily::Dragonkin => PetFamily::Undead,
        PetFamily::Elemental => PetFamily::Critter,
        PetFamily::Flying => PetFamily::Dragonkin,
        PetFamily::Humanoid => PetFamily::Beast,
        PetFamily::Magic => PetFamily::Mechanical,
        PetFamily::Mechanical => PetFamily::Elemental,
        PetFamily::Aquatic => PetFamily::Magic,
        PetFamily::Undead => PetFamily::Aquatic,
    }
}

/// The type chart: strong against one family, weak against another, neutral otherwise.
pub open spec fn spec_matchup(attacker: PetFamily, defender: PetFamily) -> Matchup {
    if defender == strong_against(attacker) {
        Matchup::Strong
    } else if defender == weak_against(attacker) {
        Matchup::Weak
    } else {
        Matchup::Neutral
    }
}

/// The type chart: each attacking family is strong against exactly one family
/// (Beast→Critter, Critter→Undead, Dragonkin→Magic, Elemental→Mechanical,
/// Flying→Aquatic, Humanoid→Dragonkin, Magic→Flying, Mechanical→Beast,
/// Aquatic→Elemental, Undead→Humanoid), weak against exactly one
/// (Beast→Flying, Critter→Beast, Dragonkin→Undead, Elemental→Critter,
/// Flying→Dragonkin, Humanoid→Beast, Magic→Mechanical, Mechanical→Elemental,
/// Aquatic→Magic, Undead→Aquatic), and neutral against every other.
pub proof fn lemma_type_chart(a: PetFamily, d: PetFamily)
    ensures
        (spec_matchup(a, d) == Matchup::Strong) <==> (
        (a == PetFamily::Beast && d == PetFamily::Critter)
            || (a == PetFamily::Critter && d == PetFamily::Undead)
            || (a == PetFamily::Dragonkin && d == PetFamily::Magic)
            || (a == PetFamily::Elemental && d == PetFamily::Mechanical)
            || (a == PetFamily::Flying && d == PetFamily::Aquatic)
            || (a == PetFamily::Humanoid && d == PetFamily::Dragonkin)
            || (a == PetFamily::Magic && d == PetFamily::Flying)
            || (a == PetFamily::Mechanical && d == PetFamily::Beast)
            || (a == PetFamily::Aquatic && d == PetFamily::Elemental)
            || (a == PetFamily::Undead && d == PetFamily::Humanoid)),
        (spec_matchup(a, d) == Matchup::Weak) <==> (
        (a == PetFamily::Beast && d == PetFamily::Flying)
            || (a == PetFamily::Critter && d == PetFamily::Beast)
            || (a == PetFamily::Dragonkin && d == PetFamily::Undead)
            || (a == PetFamily::Elemental && d == PetFamily::Critter)
            || (a == PetFamily::Flying && d == PetFamily::Dragonkin)
            || (a == PetFamily::Humanoid && d == PetFamily::Beast)
            || (a == PetFamily::Magic && d == PetFamily::Mechanical)
            || (a == PetFamily::Mechanical && d == PetFamily::Elemental)
            || (a == PetFamily::Aquatic && d == PetFamily::Magic)
            || (a == PetFamily::Undead && d == PetFamily::Aquatic)),
{
}

/// Type matchup of an attacking family against a defending family.
///
/// - Beast → Critter (strong), Flying (weak)
/// - Critter → Undead (strong), Beast (weak)
/// - Dragonkin → Magic (strong), Undead (weak)
/// - Elemental → Mechanical (strong), Critter (weak)
/// - Flying → Aquatic (strong), Dragonkin (weak)
/// - Humanoid → Dragonkin (strong), Beast (weak)
/// - Magic → Flying (strong), Mechanical (weak)
/// - Mechanical → Beast (strong), Elemental (weak)
/// - Aquatic → Elemental (strong), Magic (weak)
/// - Undead → Humanoid (strong), Aquatic (weak)
pub fn type_matchup(attacker: PetFamily, defender: PetFamily) -> (r: Matchup)
    ensures
        r == spec_matchup(attacker, defender),
{
    let (strong, weak) = match attacker {
        PetFamily::Beast => (PetFamily::Critter, PetFamily::Flying),
        PetFamily::Critter => (PetFamily::Undead, PetFamily::Beast),
        PetFamily::Dragonkin => (PetFamily::Magic, PetFamily::Undead),
        PetFamily::Elemental => (PetFamily::Mechanical, PetFamily::Critter),
        PetFamily::Flying => (PetFamily::Aquatic, PetFamily::Dragonkin),
        PetFamily::Humanoid => (PetFamily::Dragonkin, PetFamily::Beast),
        PetFamily::Magic => (PetFamily::Flying, PetFamily::Mechanical),
        PetFamily::Mechanical => (PetFamily::Beast, PetFamily::Elemental),
        PetFamily::Aquatic => (PetFamily::Elemental, PetFamily::Magic),
        PetFamily::Undead => (PetFamily::Humanoid, PetFamily::Aquatic),
    };
    if defender == strong {
        Matchup::Strong
    } else if defender == weak {
        Matchup::Weak
    } else {
        Matchup::Neutral
    }
}

/// Every family has exactly one strong matchup and exactly one weak matchup,
/// and the two are different families.
pub proof fn lemma_one_strong_one_weak(attacker: PetFamily)
    ensures
        spec_matchup(attacker, strong_against(attacker)) == Matchup::Strong,
        spec_matchup(attacker, weak_against(attacker)) == Matchup::Weak,
        forall|d: PetFamily| spec_matchup(attacker, d) == Matchup::Strong ==> d == strong_against(attacker),
        forall|d: PetFamily| spec_matchup(attacker, d) == Matchup::Weak ==> d == weak_against(attacker),
        strong_against(attacker) != weak_against(attacker),
{
}

// -- Pet Abilities --

/// Maximum abilities a pet can know.
pub const MAX_ABILITIES: usize = 6;

/// Number of active ability slots in battle.
pub const ACTIVE_SLOTS: usize = 3;

/// A pet ability definition.
#[derive(Debug, Clone, PartialEq)]
pub struct PetAbility {
    pub id: u32,
    pub name: String,
    /// Base damage (scaled by power in combat).
    pub base_damage: u32,
    /// Family type of this ability (determines type effectiveness).
    pub family: PetFamily,
    /// Cooldown in turns (0 = no cooldown).
    pub cooldown: u8,
}

/// A pet's ability loadout: 6 known abilities, 3 active slots.
#[derive(Debug, Clone, PartialEq)]
pub struct AbilityLoadout {
    /// All known abilities (up to 6).
    pub known: Vec<PetAbility>,
    /// Indices into `known` for the 3 active battle slots.
    pub active_slots: [usize; 3],
}

impl Default for AbilityLoadout {
    fn default() -> (r: Self)
        ensures
            r.known@ == Seq::<PetAbility>::empty(),
            r.active_slots@ == seq![0usize, 0usize, 0usize],
    {
        let r = AbilityLoadout { known: Vec::new(), active_slots: [0, 0, 0] };
        assert(r.active_slots@ =~= seq![0usize, 0usize, 0usize]);
        r
    }
}

/// The ability in an active slot, if the slot exists and points at a known ability.
pub open spec fn slot_ability(l: AbilityLoadout, slot: u8) -> Option<PetAbility> {
    if slot < 3 && l.active_slots@[slot as int] < l.known@.len() {
        Some(l.known@[l.active_slots@[slot as int] as int])
    } else {
        None
    }
}

impl AbilityLoadout {
    /// Get the ability in a given active slot (0–2).
    pub fn active_ability(&self, slot: u8) -> (r: Option<&PetAbility>)
        ensures
            r is Some <==> slot_ability(*self, slot) is Some,
            r matches Some(a) ==> Some(*a) == slot_ability(*self, slot),
    {
        if slot as usize >= ACTIVE_SLOTS {
            return None;
        }
        let idx = self.active_slots[slot as usize];
        if idx < self.known.len() {
            Some(&self.known[idx])
        } else {
            None
        }
    }
}

/// Damage of an attack with raw damage `raw`: ×1.5 when strong, ×0.67 when
/// weak (both rounded to nearest, halves up), unchanged when neutral; capped at
/// `u32::MAX`.
pub open spec fn scaled_damage(raw: int, m: Matchup) -> int {
    let d = match m {
        Matchup::Strong => (3 * raw + 1) / 2,
        Matchup::Weak => (67 * raw + 50) / 100,
        Matchup::Neutral => raw,
    };
    if d > u32::MAX {
        u32::MAX as int
    } else {
        d
    }
}

/// Ability damage: `(base_damage + power) * type_effectiveness`, rounded.
pub open spec fn spec_ability_damage(ability: PetAbility, attacker_power: u32, defender_family: PetFamily) -> int {
    scaled_damage(ability.base_damage + attacker_power, spec_matchup(ability.family, defender_family))
}

/// Calculate ability damage: `(base_damage + power) * type_effectiveness`.
pub fn ability_damage(ability: &PetAbility, attacker_power: u32, defender_family: PetFamily) -> (r: u32)
    requires
        ability.base_damage + attacker_power <= u32::MAX,
    ensures
        r == spec_ability_damage(*ability, attacker_power, defender_family),
{
    let raw = (ability.base_damage + attacker_power) as u64;
    let d: u64 = match type_matchup(ability.family, defender_family) {
        Matchup::Strong => (3 * raw + 1) / 2,
        Matchup::Weak => (67 * raw + 50) / 100,
        Matchup::Neutral => raw,
    };
    if d > 0xffff_ffffu64 {
        0xffff_ffffu32
    } else {
        d as u32
    }
}

// -- Wild Pet Capture --

/// Result of a trap attempt.
#[derive(Debug, Clone, Copy, PartialEq, Eq, Structural)]
pub enum CaptureResult {
    /// Pet was captured successfully.
    Captured,
    /// Trap failed — pet dodged.
    Failed,
    /// Cannot trap — pet is dead.
    Dead,
    /// Cannot trap — not a wild pet battle.
    NotWild,
}

// -- Battle System --

/// Number of pets per team in a battle.
pub const TEAM_SIZE: usize = 3;

/// A pet's state during a battle.
#[derive(Debug, Clone, PartialEq)]
pub struct BattlePet {
    pub stats: PetStats,
    pub family: PetFamily,
    pub abilities: AbilityLoadout,
    pub current_health: u32,
}

impl BattlePet {
    /// Create a battle pet with default (no abilities, Beast family).
    pub fn new(stats: PetStats) -> (r: Self)
        ensures
            r.stats == stats,
            r.current_health == stats.health,
            r.family == PetFamily::Beast,
            r.abilities.known@.len() == 0,
            r.abilities.active_slots@ == seq![0usize, 0usize, 0usize],
    {
        BattlePet {
            current_health: stats.health,
            stats,
            family: PetFamily::Beast,
            abilities: AbilityLoadout::default(),
        }
    }

    /// Create a battle pet with family and abilities.
    pub fn with_family(stats: PetStats, family: PetFamily, abilities: AbilityLoadout) -> (r: Self)
        ensures
            r == (BattlePet { stats, family, abilities, current_health: stats.health }),
    {
        BattlePet { current_health: stats.health, stats, family, abilities }
    }

    pub fn is_alive(&self) -> (r: bool)
        ensures
            r == (self.current_health > 0),
    {
        self.current_health > 0
    }

    pub fn take_damage(&mut self, amount: u32)
        ensures
            *final(self) == (BattlePet { current_health: after_hit(old(self).current_health, amount), ..*old(self) }),
    {
        self.current_health = self.current_health.saturating_sub(amount);
    }
}

/// Health after taking damage, never below zero.
pub open spec fn after_hit(health: u32, amount: u32) -> u32 {
    if amount <= health {
        (health - amount) as u32
    } else {
        0
    }
}

/// Which side of the battle.
#[derive(Debug, Clone, Copy, PartialEq, Eq, Structural)]
pub enum BattleSide {
    Player,
    Opponent,
}

/// An action selected for a turn.
#[derive(Debug, Clone, Copy, PartialEq, Eq, Structural)]
pub enum TurnAction {
    /// Use an ability (index into the pet's ability list, 0-2).
    UseAbility(u8),
    /// Swap to a different pet (index into the team, 0-2).
    Swap(u8),
    /// Pass the turn (do nothing).
    Pass,
}

/// Phase of the pet battle.
#[derive(Debug, Clone, Copy, PartialEq, Eq, Structural)]
pub enum BattlePhase {
    /// Waiting for both sides to choose actions.
    SelectAction,
    /// Battle is over.
    Ended,
}

/// Outcome of a pet battle.
#[derive(Debug, Clone, Copy, PartialEq, Eq, Structural)]
pub enum BattleOutcome {
    PlayerWins,
    OpponentWins,
}

/// What happened in a single turn resolution step.
#[derive(Debug, Clone, PartialEq, Eq, Structural)]
pub struct TurnEvent {
    pub side: BattleSide,
    pub damage: u32,
    pub target_fainted: bool,
}

/// One side's team state.
#[derive(Debug, Clone, PartialEq)]
pub struct BattleTeam {
    pub pets: Vec<BattlePet>,
    pub active: usize,
    pub action: Option<TurnAction>,
}

/// Abstract state of a team: its pets, the active index and the chosen action.
pub struct TeamView {
    pub pets: Seq<BattlePet>,
    pub active: int,
    pub action: Option<TurnAction>,
}

impl View for BattleTeam {
    type V = TeamView;

    open spec fn view(&self) -> TeamView {
        TeamView { pets: self.pets@, active: self.active as int, action: self.action }
    }
}

/// Whether a team's active index points at one of its pets.
pub open spec fn team_ok(t: TeamView) -> bool {
    0 <= t.active < t.pets.len()
}

/// The active pet of a team.
pub open spec fn active_of(t: TeamView) -> BattlePet {
    t.pets[t.active]
}

/// Whether any pet of the team is alive.
pub open spec fn any_alive(pets: Seq<BattlePet>) -> bool {
    exists|k: int| 0 <= k < pets.len() && pets[k].current_health > 0
}

/// Index of the first living pet (the length when none lives).
pub open spec fn first_alive(pets: Seq<BattlePet>) -> int
    decreases pets.len(),
{
    if pets.len() == 0 {
        0
    } else {
        let r = first_alive(pets.drop_last());
        if r < pets.len() - 1 {
            r
        } else if pets.last().current_health > 0 {
            pets.len() - 1
        } else {
            pets.len() as int
        }
    }
}

proof fn lemma_first_alive(pets: Seq<BattlePet>)
    ensures
        0 <= first_alive(pets) <= pets.len(),
        forall|k: int| 0 <= k < first_alive(pets) ==> pets[k].current_health == 0,
        first_alive(pets) < pets.len() ==> pets[first_alive(pets)].current_health > 0,
        any_alive(pets) <==> first_alive(pets) < pets.len(),
    decreases pets.len(),
{
    if pets.len() > 0 {
        let p = pets.drop_last();
        lemma_first_alive(p);
        assert(forall|k: int| 0 <= k < p.len() ==> p[k] == pets[k]);
        if any_alive(pets) {
            let w = choose|w: int| 0 <= w < pets.len() && pets[w].current_health > 0;
            if w < pets.len() - 1 {
                assert(p[w].current_health > 0);
            }
        }
    }
}

/// A team after the faint check: if its active pet has fainted, the first living
/// pet becomes active (nothing changes when none lives).
pub open spec fn swap_if_fainted(t: TeamView) -> TeamView {
    if t.pets[t.active].current_health > 0 || !any_alive(t.pets) {
        t
    } else {
        TeamView { active: first_alive(t.pets), ..t }
    }
}

/// A team whose active pet took `amount` damage.
pub open spec fn hit_active(t: TeamView, amount: u32) -> TeamView {
    let p = t.pets[t.active];
    TeamView {
        pets: t.pets.update(t.active, BattlePet { current_health: after_hit(p.current_health, amount), ..p }),
        ..t
    }
}

/// Whether every ability of every pet keeps `base_damage + power` within `u32`.
pub open spec fn damage_fits(pets: Seq<BattlePet>) -> bool {
    forall|k: int, j: int|
        0 <= k < pets.len() && 0 <= j < pets[k].abilities.known@.len()
            ==> #[trigger] pets[k].abilities.known@[j].base_damage + pets[k].stats.power <= u32::MAX
}

/// Abstract state of a battle.
pub struct BattleView {
    pub player: TeamView,
    pub opponent: TeamView,
    pub phase: BattlePhase,
    pub turn: u32,
    pub outcome: Option<BattleOutcome>,
    pub is_wild: bool,
}

/// The side facing `side`.
pub open spec fn other_side(side: BattleSide) -> BattleSide {
    match side {
        BattleSide::Player => BattleSide::Opponent,
        BattleSide::Opponent => BattleSide::Player,
    }
}

/// A side's team.
pub open spec fn team_of(b: BattleView, side: BattleSide) -> TeamView {
    match side {
        BattleSide::Player => b.player,
        BattleSide::Opponent => b.opponent,
    }
}

/// The battle with one side's team replaced.
pub open spec fn with_team(b: BattleView, side: BattleSide, t: TeamView) -> BattleView {
    match side {
        BattleSide::Player => BattleView { player: t, ..b },
        BattleSide::Opponent => BattleView { opponent: t, ..b },
    }
}

/// Damage dealt by an attacker using an ability slot against a defender family:
/// the ability's damage, or the attacker's raw power if the slot holds no ability.
pub open spec fn attack_damage(attacker: BattlePet, slot: u8, defender_family: PetFamily) -> u32 {
    match slot_ability(attacker.abilities, slot) {
        Some(a) => spec_ability_damage(a, attacker.stats.power, defender_family) as u32,
        None => attacker.stats.power,
    }
}

/// One side carrying out its action: the state afterwards and the events.
pub open spec fn act(b: BattleView, side: BattleSide, action: TurnAction) -> (BattleView, Seq<TurnEvent>) {
    match action {
        TurnAction::UseAbility(slot) => {
            let attacker = active_of(team_of(b, side));
            let target = team_of(b, other_side(side));
            let dmg = attack_damage(attacker, slot, active_of(target).family);
            let hit = hit_active(target, dmg);
            (
                with_team(b, other_side(side), hit),
                seq![TurnEvent { side, damage: dmg, target_fainted: active_of(hit).current_health == 0 }],
            )
        },
        TurnAction::Swap(idx) => {
            let t = team_of(b, side);
            if (idx as int) < t.pets.len() && t.pets[idx as int].current_health > 0 {
                (with_team(b, side, TeamView { active: idx as int, ..t }), Seq::empty())
            } else {
                (b, Seq::empty())
            }
        },
        TurnAction::Pass => (b, Seq::empty()),
    }
}

/// The faint check after an action: both teams swap out a fainted active pet;
/// a side with no living pet loses.
pub open spec fn check_faints(b: BattleView) -> BattleView {
    let b2 = BattleView { player: swap_if_fainted(b.player), opponent: swap_if_fainted(b.opponent), ..b };
    if !any_alive(b2.player.pets) {
        BattleView { phase: BattlePhase::Ended, outcome: Some(BattleOutcome::OpponentWins), ..b2 }
    } else if !any_alive(b2.opponent.pets) {
        BattleView { phase: BattlePhase::Ended, outcome: Some(BattleOutcome::PlayerWins), ..b2 }
    } else {
        b2
    }
}

/// Resolving a turn once both actions are chosen (and cleared from the teams):
/// the faster active pet acts first (ties go to the player), then the faint
/// check; if the battle is not over the other side acts, the faint check runs
/// again and the turn counter advances.
pub open spec fn resolve(b: BattleView, p_action: TurnAction, o_action: TurnAction) -> (BattleView, Seq<TurnEvent>) {
    let player_first = active_of(b.player).stats.speed >= active_of(b.opponent).stats.speed;
    let first_side = if player_first {
        BattleSide::Player
    } else {
        BattleSide::Opponent
    };
    let first_action = if player_first {
        p_action
    } else {
        o_action
    };
    let second_action = if player_first {
        o_action
    } else {
        p_action
    };
    let (b1, e1) = act(b, first_side, first_action);
    let c1 = check_faints(b1);
    if c1.phase == BattlePhase::Ended {
        (c1, e1)
    } else {
        let (b2, e2) = act(c1, other_side(first_side), second_action);
        let c2 = check_faints(b2);
        (BattleView { turn: (c2.turn + 1) as u32, ..c2 }, e1 + e2)
    }
}

/// Whether both teams are in a state a turn can be resolved from.
pub open spec fn battle_ok(b: BattleView) -> bool {
    &&& team_ok(b.player)
    &&& team_ok(b.opponent)
    &&& damage_fits(b.player.pets)
    &&& damage_fits(b.opponent.pets)
}

proof fn lemma_swap_ok(t: TeamView)
    requires
        team_ok(t),
    ensures
        team_ok(swap_if_fainted(t)),
        swap_if_fainted(t).pets == t.pets,
        any_alive(t.pets) ==> active_of(swap_if_fainted(t)).current_health > 0,
{
    lemma_first_alive(t.pets);
}

proof fn lemma_act_ok(b: BattleView, side: BattleSide, action: TurnAction)
    requires
        battle_ok(b),
    ensures
        battle_ok(act(b, side, action).0),
        act(b, side, action).0.phase == b.phase,
        act(b, side, action).0.turn == b.turn,
        act(b, side, action).0.outcome == b.outcome,
        act(b, side, action).0.is_wild == b.is_wild,
        act(b, side, action).0.player.action == b.player.action,
        act(b, side, action).0.opponent.action == b.opponent.action,
{
    let r = act(b, side, action).0;
    match action {
        TurnAction::UseAbility(slot) => {
            let t = team_of(b, other_side(side));
            let dmg = attack_damage(active_of(team_of(b, side)), slot, active_of(t).family);
            let h = hit_active(t, dmg);
            assert forall|k: int, j: int|
                0 <= k < h.pets.len() && 0 <= j < h.pets[k].abilities.known@.len() implies #[trigger] h.pets[k].abilities.known@[j].base_damage
                + h.pets[k].stats.power <= u32::MAX by {
                assert(h.pets[k].abilities == t.pets[k].abilities);
                assert(h.pets[k].stats == t.pets[k].stats);
            }
        },
        _ => {},
    }
}

proof fn lemma_faints_ok(b: BattleView)
    requires
        battle_ok(b),
    ensures
        battle_ok(check_faints(b)),
        check_faints(b).player.pets == b.player.pets,
        check_faints(b).opponent.pets == b.opponent.pets,
        check_faints(b).turn == b.turn,
        check_faints(b).player.action == b.player.action,
        check_faints(b).opponent.action == b.opponent.action,
        check_faints(b).phase == BattlePhase::Ended || check_faints(b).phase == b.phase,
        (check_faints(b).phase == BattlePhase::Ended && b.phase != BattlePhase::Ended)
            ==> check_faints(b).outcome is Some,
        check_faints(b).phase != BattlePhase::Ended ==> check_faints(b).outcome == b.outcome,
{
    lemma_swap_ok(b.player);
    lemma_swap_ok(b.opponent);
}

impl BattleTeam {
    pub fn new(pets: Vec<BattlePet>) -> (r: Self)
        ensures
            r.pets@ == pets@,
            r.active == 0,
            r.action is None,
    {
        BattleTeam { pets, active: 0, action: None }
    }

    pub fn active_pet(&self) -> (r: &BattlePet)
        requires
            team_ok(self@),
        ensures
            *r == active_of(self@),
    {
        &self.pets[self.active]
    }

    pub fn active_pet_mut(&mut self) -> (r: &mut BattlePet)
        requires
            team_ok(old(self)@),
        ensures
            *r == active_of(old(self)@),
            final(self).active == old(self).active,
            final(self).action == old(self).action,
            final(self).pets@ == old(self).pets@.update(old(self).active as int, *final(r)),
    {
        &mut self.pets[self.active]
    }

    /// Whether any pet on this team is still alive.
    pub fn has_alive(&self) -> (r: bool)
        ensures
            r == any_alive(self.pets@),
    {
        let mut i: usize = 0;
        while i < self.pets.len()
            invariant
                i <= self.pets.len(),
                forall|k: int| 0 <= k < i ==> self.pets@[k].current_health == 0,
            decreases self.pets.len() - i,
        {
            if self.pets[i].is_alive() {
                return true;
            }
            i = i + 1;
        }
        false
    }

    /// Auto-swap to the first alive pet if the active one fainted.
    /// Returns false if none alive.
    pub fn auto_swap_if_fainted(&mut self) -> (r: bool)
        requires
            team_ok(old(self)@),
        ensures
            final(self)@ == swap_if_fainted(old(self)@),
            r == any_alive(old(self).pets@),
    {
        proof {
            lemma_first_alive(self.pets@);
        }
        if self.active_pet().is_alive() {
            return true;
        }
        let mut i: usize = 0;
        while i < self.pets.len()
            invariant
                i <= self.pets.len(),
                self@ == old(self)@,
                team_ok(self@),
                self.pets@[self.active as int].current_health == 0,
                forall|k: int| 0 <= k < i ==> self.pets@[k].current_health == 0,
            decreases self.pets.len() - i,
        {
            if self.pets[i].is_alive() {
                assert(first_alive(self.pets@) == i) by {
                    lemma_first_alive(self.pets@);
                    let f = first_alive(self.pets@);
                    if f < i {
                        assert(self.pets@[f].current_health == 0);
                    }
                };
                assert(any_alive(self.pets@)) by {
                    assert(self.pets@[i as int].current_health > 0);
                }
                let ghost before = self@;
                self.active = i;
                assert(before.pets[before.active].current_health == 0);
                assert(self@ == TeamView { active: first_alive(before.pets), ..before });
                return true;
            }
            i = i + 1;
        }
        false
    }
}

/// A pet battle instance (3v3 turn-based).
#[derive(Debug, Clone, PartialEq)]
pub struct PetBattle {
    pub player: BattleTeam,
    pub opponent: BattleTeam,
    pub phase: BattlePhase,
    pub turn: u32,
    pub outcome: Option<BattleOutcome>,
    /// Whether this is a wild pet battle (allows trapping).
    pub is_wild: bool,
}

impl View for PetBattle {
    type V = BattleView;

    open spec fn view(&self) -> BattleView {
        BattleView {
            player: self.player@,
            opponent: self.opponent@,
            phase: self.phase,
            turn: self.turn,
            outcome: self.outcome,
            is_wild: self.is_wild,
        }
    }
}

/// The battle state after one side submits an action: a finished battle ignores
/// it; otherwise the action is recorded, and once both sides have one the turn
/// is resolved with the actions cleared.
pub open spec fn after_submit(b: BattleView, side: BattleSide, action: TurnAction) -> (BattleView, Seq<TurnEvent>) {
    if b.phase != BattlePhase::SelectAction {
        (b, Seq::empty())
    } else {
        let t = team_of(b, side);
        let b1 = with_team(b, side, TeamView { action: Some(action), ..t });
        if b1.player.action is Some && b1.opponent.action is Some {
            let cleared = BattleView {
                player: TeamView { action: None, ..b1.player },
                opponent: TeamView { action: None, ..b1.opponent },
                ..b1
            };
            resolve(cleared, b1.player.action->0, b1.opponent.action->0)
        } else {
            (b1, Seq::empty())
        }
    }
}

/// Whether submitting this action would resolve a turn.
pub open spec fn completes_turn(b: BattleView, side: BattleSide) -> bool {
    b.phase == BattlePhase::SelectAction && team_of(b, other_side(side)).action is Some
}

impl PetBattle {
    /// Create a new PvP/NPC battle (not wild — no trapping).
    pub fn new(player_pets: Vec<BattlePet>, opponent_pets: Vec<BattlePet>) -> (r: Self)
        ensures
            r@.player.pets == player_pets@,
            r@.opponent.pets == opponent_pets@,
            r@.player.active == 0 && r@.opponent.active == 0,
            r@.player.action is None && r@.opponent.action is None,
            r.phase == BattlePhase::SelectAction,
            r.turn == 1,
            r.outcome is None,
            !r.is_wild,
    {
        PetBattle {
            player: BattleTeam::new(player_pets),
            opponent: BattleTeam::new(opponent_pets),
            phase: BattlePhase::SelectAction,
            turn: 1,
            outcome: None,
            is_wild: false,
        }
    }

    /// Create a wild pet battle (allows trapping).
    pub fn new_wild(player_pets: Vec<BattlePet>, wild_pets: Vec<BattlePet>) -> (r: Self)
        ensures
            r@.player.pets == player_pets@,
            r@.opponent.pets == wild_pets@,
            r@.player.active == 0 && r@.opponent.active == 0,
            r@.player.action is None && r@.opponent.action is None,
            r.phase == BattlePhase::SelectAction,
            r.turn == 1,
            r.outcome is None,
            r.is_wild,
    {
        PetBattle {
            player: BattleTeam::new(player_pets),
            opponent: BattleTeam::new(wild_pets),
            phase: BattlePhase::SelectAction,
            turn: 1,
            outcome: None,
            is_wild: true,
        }
    }

    /// Submit an action for one side. When both sides have acted, resolve the turn.
    pub fn submit_action(&mut self, side: BattleSide, action: TurnAction) -> (events: Vec<TurnEvent>)
        requires
            completes_turn(old(self)@, side) ==> battle_ok(old(self)@) && old(self).turn < u32::MAX,
        ensures
            (final(self)@, events@) == after_submit(old(self)@, side, action),
    {
        if self.phase != BattlePhase::SelectAction {
            return Vec::new();
        }
        match side {
            BattleSide::Player => self.player.action = Some(action),
            BattleSide::Opponent => self.opponent.action = Some(action),
        }
        if self.player.action.is_some() && self.opponent.action.is_some() {
            return self.resolve_turn();
        }
        Vec::new()
    }

    fn resolve_turn(&mut self) -> (events: Vec<TurnEvent>)
        requires
            battle_ok(old(self)@),
            old(self).turn < u32::MAX,
            old(self).phase == BattlePhase::SelectAction,
            old(self).player.action is Some,
            old(self).opponent.action is Some,
        ensures
            ({
                let b = old(self)@;
                let cleared = BattleView {
                    player: TeamView { action: None, ..b.player },
                    opponent: TeamView { action: None, ..b.opponent },
                    ..b
                };
                (final(self)@, events@) == resolve(cleared, b.player.action->0, b.opponent.action->0)
            }),
    {
        let p_action = match self.player.action {
            Some(a) => a,
            None => TurnAction::Pass,
        };
        let o_action = match self.opponent.action {
            Some(a) => a,
            None => TurnAction::Pass,
        };
        self.player.action = None;
        self.opponent.action = None;
        let ghost cleared = self@;
        let p_speed = self.player.active_pet().stats.speed;
        let o_speed = self.opponent.active_pet().stats.speed;
        let player_first = p_speed >= o_speed;
        let (first_side, first_action, second_side, second_action) = if player_first {
            (BattleSide::Player, p_action, BattleSide::Opponent, o_action)
        } else {
            (BattleSide::Opponent, o_action, BattleSide::Player, p_action)
        };
        proof {
            lemma_act_ok(cleared, first_side, first_action);
            lemma_faints_ok(act(cleared, first_side, first_action).0);
        }
        let mut events = self.execute_action(first_side, first_action);
        self.check_faints();
        if self.phase == BattlePhase::Ended {
            return events;
        }
        let ghost mid = self@;
        proof {
            lemma_act_ok(mid, second_side, second_action);
            lemma_faints_ok(act(mid, second_side, second_action).0);
        }
        let mut second = self.execute_action(second_side, second_action);
        self.check_faints();
        events.append(&mut second);
        self.turn = self.turn + 1;
        events
    }

    fn execute_action(&mut self, side: BattleSide, action: TurnAction) -> (events: Vec<TurnEvent>)
        requires
            battle_ok(old(self)@),
        ensures
            (final(self)@, events@) == act(old(self)@, side, action),
    {
        match action {
            TurnAction::UseAbility(slot) => {
                let attacker = self.team(side).active_pet();
                let attacker_power = attacker.stats.power;
                let defender_family = self.team(side.opposite()).active_pet().family;
                let damage = match attacker.abilities.active_ability(slot) {
                    Some(ability) => {
                        proof {
                            let t = team_of(self@, side);
                            let k = t.active;
                            let j = attacker.abilities.active_slots@[slot as int] as int;
                            assert(t.pets[k].abilities.known@[j].base_damage
                                + t.pets[k].stats.power <= u32::MAX);
                        }
                        ability_damage(ability, attacker_power, defender_family)
                    },
                    None => attacker_power,
                };
                let target = self.team_mut(side.opposite());
                target.active_pet_mut().take_damage(damage);
                let fainted = !target.active_pet().is_alive();
                let mut events: Vec<TurnEvent> = Vec::new();
                events.push(TurnEvent { side, damage, target_fainted: fainted });
                assert(events@ =~= seq![TurnEvent { side, damage, target_fainted: fainted }]);
                events
            },
            TurnAction::Swap(idx) => {
                let team = self.team_mut(side);
                let idx = idx as usize;
                if idx < team.pets.len() && team.pets[idx].is_alive() {
                    team.active = idx;
                }
                Vec::new()
            },
            TurnAction::Pass => Vec::new(),
        }
    }

    fn check_faints(&mut self)
        requires
            battle_ok(old(self)@),
        ensures
            final(self)@ == check_faints(old(self)@),
    {
        self.player.auto_swap_if_fainted();
        self.opponent.auto_swap_if_fainted();
        if !self.player.has_alive() {
            self.end(BattleOutcome::OpponentWins);
        } else if !self.opponent.has_alive() {
            self.end(BattleOutcome::PlayerWins);
        }
    }

    fn end(&mut self, outcome: BattleOutcome)
        ensures
            final(self)@ == (BattleView { phase: BattlePhase::Ended, outcome: Some(outcome), ..old(self)@ }),
    {
        self.phase = BattlePhase::Ended;
        self.outcome = Some(outcome);
    }

    fn team(&self, side: BattleSide) -> (r: &BattleTeam)
        ensures
            r@ == team_of(self@, side),
    {
        match side {
            BattleSide::Player => &self.player,
            BattleSide::Opponent => &self.opponent,
        }
    }

    fn team_mut(&mut self, side: BattleSide) -> (r: &mut BattleTeam)
        ensures
            r@ == team_of(old(self)@, side),
            final(self)@ == with_team(old(self)@, side, final(r)@),
    {
        match side {
            BattleSide::Player => &mut self.player,
            BattleSide::Opponent => &mut self.opponent,
        }
    }

    /// Attempt to capture the opponent's active pet. `trap_hits` is whether the
    /// trap roll came in under the capture chance for the target's current health.
    /// The battle ends immediately on a successful capture.
    pub fn attempt_capture(&mut self, trap_hits: bool) -> (r: CaptureResult)
        requires
            old(self).is_wild && old(self).phase == BattlePhase::SelectAction ==> team_ok(
                old(self)@.opponent,
            ),
        ensures
            !old(self).is_wild ==> r == CaptureResult::NotWild,
            old(self).is_wild && old(self).phase != BattlePhase::SelectAction ==> r
                == CaptureResult::Failed,
            old(self).is_wild && old(self).phase == BattlePhase::SelectAction ==> {
                if active_of(old(self)@.opponent).current_health == 0 {
                    r == CaptureResult::Dead
                } else if trap_hits {
                    r == CaptureResult::Captured
                } else {
                    r == CaptureResult::Failed
                }
            },
            r == CaptureResult::Captured ==> final(self)@ == (BattleView {
                phase: BattlePhase::Ended,
                outcome: Some(BattleOutcome::PlayerWins),
                ..old(self)@
            }),
            r != CaptureResult::Captured ==> final(self)@ == old(self)@,
    {
        if !self.is_wild {
            return CaptureResult::NotWild;
        }
        if self.phase != BattlePhase::SelectAction {
            return CaptureResult::Failed;
        }
        if !self.opponent.active_pet().is_alive() {
            return CaptureResult::Dead;
        }
        if trap_hits {
            self.end(BattleOutcome::PlayerWins);
            CaptureResult::Captured
        } else {
            CaptureResult::Failed
        }
    }
}

impl BattleSide {
    fn opposite(self) -> (r: Self)
        ensures
            r == other_side(self),
    {
        match self {
            BattleSide::Player => BattleSide::Opponent,
            BattleSide::Opponent => BattleSide::Player,
        }
    }
}

/// A finished battle stays finished: submitting any action changes nothing and
/// produces no events.
pub proof fn lemma_ended_is_final(b: BattleView, side: BattleSide, action: TurnAction)
    requires
        b.phase == BattlePhase::Ended,
    ensures
        after_submit(b, side, action) == (b, Seq::<TurnEvent>::empty()),
{
}

/// Submitting an action while the other side has not chosen yet only records
/// the action, with no events; and no submission moves the turn counter back
/// (given the counter can still advance).
pub proof fn lemma_submit_records_and_advances(b: BattleView, side: BattleSide, action: TurnAction)
    requires
        b.turn < u32::MAX,
    ensures
        after_submit(b, side, action).0.turn >= b.turn,
        b.phase == BattlePhase::SelectAction && team_of(b, other_side(side)).action is None
            ==> after_submit(b, side, action) == (
            with_team(b, side, TeamView { action: Some(action), ..team_of(b, side) }),
            Seq::<TurnEvent>::empty(),
        ),
{
    if b.phase == BattlePhase::SelectAction {
        let t = team_of(b, side);
        let b1 = with_team(b, side, TeamView { action: Some(action), ..t });
        if b1.player.action is Some && b1.opponent.action is Some {
            let cleared = BattleView {
                player: TeamView { action: None, ..b1.player },
                opponent: TeamView { action: None, ..b1.opponent },
                ..b1
            };
            let pa = b1.player.action->0;
            let oa = b1.opponent.action->0;
            let player_first = active_of(cleared.player).stats.speed >= active_of(cleared.opponent).stats.speed;
            let fs = if player_first { BattleSide::Player } else { BattleSide::Opponent };
            let fa = if player_first { pa } else { oa };
            let sa = if player_first { oa } else { pa };
            let (b1x, e1) = act(cleared, fs, fa);
            assert(b1x.turn == b.turn);
            let c1 = check_faints(b1x);
            if c1.phase != BattlePhase::Ended {
                let (b2, e2) = act(c1, other_side(fs), sa);
                assert(b2.turn == b.turn);
            }
        }
    }
}

/// Turns keep the battle resolvable and decided: from a resolvable state with
/// `phase == Ended` exactly when an outcome is set, any submission leads to a
/// state that is again resolvable, where again `phase == Ended` exactly when an
/// outcome is set, and where no pet gained health.
pub proof fn lemma_submit_preserves(b: BattleView, side: BattleSide, action: TurnAction)
    requires
        battle_ok(b),
        (b.phase == BattlePhase::Ended) <==> (b.outcome is Some),
    ensures
        battle_ok(after_submit(b, side, action).0),
        (after_submit(b, side, action).0.phase == BattlePhase::Ended) <==> (after_submit(
            b,
            side,
            action,
        ).0.outcome is Some),
        after_submit(b, side, action).0.player.pets.len() == b.player.pets.len(),
        after_submit(b, side, action).0.opponent.pets.len() == b.opponent.pets.len(),
        forall|k: int|
            0 <= k < b.player.pets.len() ==> #[trigger] after_submit(b, side, action).0.player.pets[k].current_health
                <= b.player.pets[k].current_health,
        forall|k: int|
            0 <= k < b.opponent.pets.len() ==> #[trigger] after_submit(b, side, action).0.opponent.pets[k].current_health
                <= b.opponent.pets[k].current_health,
{
    if b.phase == BattlePhase::SelectAction {
        let t = team_of(b, side);
        let b1 = with_team(b, side, TeamView { action: Some(action), ..t });
        if b1.player.action is Some && b1.opponent.action is Some {
            let cleared = BattleView {
                player: TeamView { action: None, ..b1.player },
                opponent: TeamView { action: None, ..b1.opponent },
                ..b1
            };
            let pa = b1.player.action->0;
            let oa = b1.opponent.action->0;
            let player_first = active_of(cleared.player).stats.speed >= active_of(cleared.opponent).stats.speed;
            let fs = if player_first {
                BattleSide::Player
            } else {
                BattleSide::Opponent
            };
            let fa = if player_first {
                pa
            } else {
                oa
            };
            let sa = if player_first {
                oa
            } else {
                pa
            };
            lemma_act_ok(cleared, fs, fa);
            lemma_act_health(cleared, fs, fa);
            let (b1x, e1) = act(cleared, fs, fa);
            lemma_faints_ok(b1x);
            let c1 = check_faints(b1x);
            if c1.phase != BattlePhase::Ended {
                lemma_act_ok(c1, other_side(fs), sa);
                lemma_act_health(c1, other_side(fs), sa);
                let (b2, e2) = act(c1, other_side(fs), sa);
                lemma_faints_ok(b2);
            }
        }
    }
}

proof fn lemma_act_health(b: BattleView, side: BattleSide, action: TurnAction)
    requires
        battle_ok(b),
    ensures
        act(b, side, action).0.player.pets.len() == b.player.pets.len(),
        act(b, side, action).0.opponent.pets.len() == b.opponent.pets.len(),
        forall|k: int|
            0 <= k < b.player.pets.len() ==> #[trigger] act(b, side, action).0.player.pets[k].current_health
                <= b.player.pets[k].current_health,
        forall|k: int|
            0 <= k < b.opponent.pets.len() ==> #[trigger] act(b, side, action).0.opponent.pets[k].current_health
                <= b.opponent.pets[k].current_health,
{
}

} // verus!
